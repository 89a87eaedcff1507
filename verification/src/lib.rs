//! An interpreter for a small textual command language modeling a subset of a
//! game's scoreboard and control-flow commands.
//!
//! The crate is a three-stage pipeline:
//! - [`parse::parse_line`] turns one line of text into a structured [`Command`]
//!   (or a structured error),
//! - [`execute::Game::execute`] runs a [`Command`] against mutable game state,
//!   recording log and chat events,
//! - [`lower::lower`] renders a [`Command`] back into its canonical text, the
//!   left inverse of parsing.
//!
//! The [`round_trip`] module proves the pipeline's central law: parsing the
//! canonical text of a well-formed command yields the command back.
//!
//! This file holds the command model: pure data types shared by all three
//! stages, together with their mathematical views. Every type whose fields
//! carry strings has a ghost counterpart over `Seq<char>`, so that contracts
//! can speak about the text the values denote.

use vstd::prelude::*;

pub mod execute;
pub mod lower;
pub mod numbers;
pub mod parse;
pub mod round_trip;
pub mod text;

verus! {

/// The root syntax node: one line of command text parses to one `Command`.
#[derive(Debug, PartialEq)]
pub enum Command {
    Scoreboard(Scoreboard),
    Function(FunctionIdentifier),
    Execute(Execute),
    Tellraw(Tellraw),
}

#[derive(Debug, PartialEq)]
pub enum Scoreboard {
    Objectives(Objectives),
    Players(Players),
}

#[derive(Debug, PartialEq)]
pub enum Objectives {
    Add(ObjectivesAdd),
    List,
    Modify(ObjectivesModify),
    Remove(ObjectivesRemove),
    SetDisplay(ObjectivesSetDisplay),
}

#[derive(Debug, PartialEq, Eq, Copy, Clone, Structural)]
pub enum Criteria {
    Dummy,
}

#[derive(Debug, PartialEq)]
pub struct ObjectivesAdd {
    pub objective: String,
    pub criteria: Criteria,
    pub display_name: Option<String>,
}

#[derive(Debug, PartialEq)]
pub struct ObjectivesModify {
    pub objective: String,
    pub modification: Modification,
}

#[derive(Debug, PartialEq)]
pub enum Modification {
    DisplayName(String),
    RenderType(RenderType),
}

#[derive(Debug, PartialEq, Eq, Copy, Clone, Structural)]
pub enum RenderType {
    Hearts,
    Integer,
}

#[derive(Debug, PartialEq)]
pub struct ObjectivesRemove {
    pub objective: String,
}

#[derive(Debug, PartialEq)]
pub struct ObjectivesSetDisplay {
    pub slot: DisplaySlot,
    pub objective: String,
}

/// One of three fixed UI locations that can show at most one objective.
#[derive(Debug, PartialEq, Eq, Hash, Copy, Clone, Structural)]
pub enum DisplaySlot {
    BelowName,
    List,
    Sidebar,
}

#[derive(Debug, PartialEq)]
pub enum Players {
    Add(PlayersAdd),
    Enable(PlayersEnable),
    Get(PlayersGet),
    List(PlayersList),
    Operation(PlayersOperation),
    Remove(PlayersRemove),
    Reset(PlayersReset),
    SetScore(PlayersSet),
}

#[derive(Debug, PartialEq)]
pub struct PlayersAdd {
    pub targets: Target,
    pub objective: String,
    pub score: i32,
}

#[derive(Debug, PartialEq)]
pub struct PlayersEnable {
    pub targets: Target,
    pub objective: String,
}

#[derive(Debug, PartialEq)]
pub struct PlayersGet {
    pub target: Target,
    pub objective: String,
}

#[derive(Debug, PartialEq)]
pub struct PlayersList {
    pub target: Option<Target>,
}

#[derive(Debug, PartialEq)]
pub struct PlayersOperation {
    pub targets: Target,
    pub target_objective: String,
    pub operation: OperationType,
    pub source: Target,
    pub source_objective: String,
}

#[derive(Debug, PartialEq, Eq, Copy, Clone, Structural)]
pub enum OperationType {
    Addition,
    Subtraction,
    Multiplication,
    Division,
    Modulus,
    Assign,
    Min,
    Max,
    Swap,
}

#[derive(Debug, PartialEq)]
pub struct PlayersRemove {
    pub targets: Target,
    pub objective: String,
    pub score: i32,
}

#[derive(Debug, PartialEq)]
pub struct PlayersReset {
    pub targets: Target,
    pub objective: String,
}

#[derive(Debug, PartialEq)]
pub struct PlayersSet {
    pub targets: Target,
    pub objective: String,
    pub score: i32,
}

#[derive(Debug, PartialEq)]
pub struct FunctionIdentifier {
    pub namespace: Option<String>,
    pub name: String,
}

/// Which player(s) a command acts on: a literal player name, or an
/// entity-selector token such as `@a`.
#[derive(Debug, PartialEq)]
pub enum Target {
    Name(String),
    Selector(Selector),
}

#[derive(Debug, PartialEq, Eq, Copy, Clone, Structural)]
pub struct Selector {
    pub variable: SelectorVariable,
}

#[derive(Debug, PartialEq, Eq, Copy, Clone, Structural)]
pub enum SelectorVariable {
    P,
    R,
    A,
    E,
    S,
}

/// A named sequence of commands supplied by a datapack.
#[derive(Debug, PartialEq)]
pub struct Function {
    pub identifier: FunctionIdentifier,
    pub commands: Vec<Command>,
}

#[derive(Debug, PartialEq)]
pub enum Execute {
    If(If),
}

#[derive(Debug, PartialEq)]
pub enum If {
    Score(Score),
}

#[derive(Debug, PartialEq)]
pub enum Score {
    Less(SourceComparison),
    LessEqual(SourceComparison),
    Greater(SourceComparison),
    GreaterEqual(SourceComparison),
    Equal(SourceComparison),
    Matches(RangeComparison),
}

#[derive(Debug, PartialEq)]
pub struct SourceComparison {
    pub target: Target,
    pub target_objective: String,
    pub source: Target,
    pub source_objective: String,
    pub command: Box<Command>,
}

#[derive(Debug, PartialEq)]
pub struct RangeComparison {
    pub target: Target,
    pub target_objective: String,
    pub interval: Interval,
    pub command: Box<Command>,
}

/// A closed-form integer range-membership test used by `Score::Matches`.
#[derive(Debug, PartialEq, Eq, Copy, Clone, Structural)]
pub enum Interval {
    Value(i32),
    Bounded(i32, i32),
    LeftUnbounded(i32),
    RightUnbounded(i32),
}

/// A chat broadcast carrying a raw message.
#[derive(Debug, PartialEq)]
pub struct Tellraw {
    pub target: Target,
    pub message: String,
}

// ---------------------------------------------------------------------------
// Mathematical views of the model.
//
// Types whose fields are all copyable tokens (`Criteria`, `RenderType`,
// `DisplaySlot`, `OperationType`, `Selector`, `SelectorVariable`, `Interval`)
// are their own views; types holding strings or nested commands have a ghost
// counterpart over `Seq<char>`.
// ---------------------------------------------------------------------------

pub ghost enum CommandView {
    Scoreboard(ScoreboardView),
    Function(FunctionIdentifierView),
    Execute(ExecuteView),
    Tellraw(TellrawView),
}

pub ghost enum ScoreboardView {
    Objectives(ObjectivesView),
    Players(PlayersView),
}

pub ghost enum ObjectivesView {
    Add(ObjectivesAddView),
    List,
    Modify(ObjectivesModifyView),
    Remove(ObjectivesRemoveView),
    SetDisplay(ObjectivesSetDisplayView),
}

pub ghost struct ObjectivesAddView {
    pub objective: Seq<char>,
    pub criteria: Criteria,
    pub display_name: Option<Seq<char>>,
}

pub ghost struct ObjectivesModifyView {
    pub objective: Seq<char>,
    pub modification: ModificationView,
}

pub ghost enum ModificationView {
    DisplayName(Seq<char>),
    RenderType(RenderType),
}

pub ghost struct ObjectivesRemoveView {
    pub objective: Seq<char>,
}

pub ghost struct ObjectivesSetDisplayView {
    pub slot: DisplaySlot,
    pub objective: Seq<char>,
}

pub ghost enum PlayersView {
    Add(PlayersAddView),
    Enable(PlayersEnableView),
    Get(PlayersGetView),
    List(PlayersListView),
    Operation(PlayersOperationView),
    Remove(PlayersRemoveView),
    Reset(PlayersResetView),
    SetScore(PlayersSetView),
}

pub ghost struct PlayersAddView {
    pub targets: TargetView,
    pub objective: Seq<char>,
    pub score: i32,
}

pub ghost struct PlayersEnableView {
    pub targets: TargetView,
    pub objective: Seq<char>,
}

pub ghost struct PlayersGetView {
    pub target: TargetView,
    pub objective: Seq<char>,
}

pub ghost struct PlayersListView {
    pub target: Option<TargetView>,
}

pub ghost struct PlayersOperationView {
    pub targets: TargetView,
    pub target_objective: Seq<char>,
    pub operation: OperationType,
    pub source: TargetView,
    pub source_objective: Seq<char>,
}

pub ghost struct PlayersRemoveView {
    pub targets: TargetView,
    pub objective: Seq<char>,
    pub score: i32,
}

pub ghost struct PlayersResetView {
    pub targets: TargetView,
    pub objective: Seq<char>,
}

pub ghost struct PlayersSetView {
    pub targets: TargetView,
    pub objective: Seq<char>,
    pub score: i32,
}

pub ghost struct FunctionIdentifierView {
    pub namespace: Option<Seq<char>>,
    pub name: Seq<char>,
}

pub ghost enum TargetView {
    Name(Seq<char>),
    Selector(Selector),
}

pub ghost struct FunctionView {
    pub identifier: FunctionIdentifierView,
    pub commands: Seq<CommandView>,
}

pub ghost enum ExecuteView {
    If(IfView),
}

pub ghost enum IfView {
    Score(ScoreView),
}

pub ghost enum ScoreView {
    Less(SourceComparisonView),
    LessEqual(SourceComparisonView),
    Greater(SourceComparisonView),
    GreaterEqual(SourceComparisonView),
    Equal(SourceComparisonView),
    Matches(RangeComparisonView),
}

pub ghost struct SourceComparisonView {
    pub target: TargetView,
    pub target_objective: Seq<char>,
    pub source: TargetView,
    pub source_objective: Seq<char>,
    pub command: Box<CommandView>,
}

pub ghost struct RangeComparisonView {
    pub target: TargetView,
    pub target_objective: Seq<char>,
    pub interval: Interval,
    pub command: Box<CommandView>,
}

pub ghost struct TellrawView {
    pub target: TargetView,
    pub message: Seq<char>,
}

// The view of a command is defined by a family of mutually recursive spec
// functions, because `Execute` conditions carry a nested boxed command.

pub open spec fn view_command(c: Command) -> CommandView
    decreases c,
{
    match c {
        Command::Scoreboard(s) => CommandView::Scoreboard(view_scoreboard(s)),
        Command::Function(f) => CommandView::Function(view_function_identifier(f)),
        Command::Execute(e) => CommandView::Execute(view_execute(e)),
        Command::Tellraw(t) => CommandView::Tellraw(view_tellraw(t)),
    }
}

pub open spec fn view_execute(e: Execute) -> ExecuteView
    decreases e,
{
    match e {
        Execute::If(i) => ExecuteView::If(view_if(i)),
    }
}

pub open spec fn view_if(i: If) -> IfView
    decreases i,
{
    match i {
        If::Score(s) => IfView::Score(view_score(s)),
    }
}

pub open spec fn view_score(s: Score) -> ScoreView
    decreases s,
{
    match s {
        Score::Less(sc) => ScoreView::Less(view_source_comparison(sc)),
        Score::LessEqual(sc) => ScoreView::LessEqual(view_source_comparison(sc)),
        Score::Greater(sc) => ScoreView::Greater(view_source_comparison(sc)),
        Score::GreaterEqual(sc) => ScoreView::GreaterEqual(view_source_comparison(sc)),
        Score::Equal(sc) => ScoreView::Equal(view_source_comparison(sc)),
        Score::Matches(rc) => ScoreView::Matches(view_range_comparison(rc)),
    }
}

pub open spec fn view_source_comparison(sc: SourceComparison) -> SourceComparisonView
    decreases sc,
{
    SourceComparisonView {
        target: view_target(sc.target),
        target_objective: sc.target_objective@,
        source: view_target(sc.source),
        source_objective: sc.source_objective@,
        command: Box::new(view_command(*sc.command)),
    }
}

pub open spec fn view_range_comparison(rc: RangeComparison) -> RangeComparisonView
    decreases rc,
{
    RangeComparisonView {
        target: view_target(rc.target),
        target_objective: rc.target_objective@,
        interval: rc.interval,
        command: Box::new(view_command(*rc.command)),
    }
}

pub open spec fn view_scoreboard(s: Scoreboard) -> ScoreboardView {
    match s {
        Scoreboard::Objectives(o) => ScoreboardView::Objectives(view_objectives(o)),
        Scoreboard::Players(p) => ScoreboardView::Players(view_players(p)),
    }
}

pub open spec fn view_objectives(o: Objectives) -> ObjectivesView {
    match o {
        Objectives::Add(a) => ObjectivesView::Add(a@),
        Objectives::List => ObjectivesView::List,
        Objectives::Modify(m) => ObjectivesView::Modify(m@),
        Objectives::Remove(r) => ObjectivesView::Remove(r@),
        Objectives::SetDisplay(sd) => ObjectivesView::SetDisplay(sd@),
    }
}

pub open spec fn view_players(p: Players) -> PlayersView {
    match p {
        Players::Add(a) => PlayersView::Add(a@),
        Players::Enable(e) => PlayersView::Enable(e@),
        Players::Get(g) => PlayersView::Get(g@),
        Players::List(l) => PlayersView::List(l@),
        Players::Operation(o) => PlayersView::Operation(o@),
        Players::Remove(r) => PlayersView::Remove(r@),
        Players::Reset(r) => PlayersView::Reset(r@),
        Players::SetScore(st) => PlayersView::SetScore(st@),
    }
}

pub open spec fn view_function_identifier(f: FunctionIdentifier) -> FunctionIdentifierView {
    FunctionIdentifierView {
        namespace: match f.namespace {
            Some(ns) => Some(ns@),
            None => None,
        },
        name: f.name@,
    }
}

pub open spec fn view_target(t: Target) -> TargetView {
    match t {
        Target::Name(n) => TargetView::Name(n@),
        Target::Selector(s) => TargetView::Selector(s),
    }
}

pub open spec fn view_tellraw(t: Tellraw) -> TellrawView {
    TellrawView { target: view_target(t.target), message: t.message@ }
}

impl View for Command {
    type V = CommandView;

    open spec fn view(&self) -> CommandView {
        view_command(*self)
    }
}

impl View for Scoreboard {
    type V = ScoreboardView;

    open spec fn view(&self) -> ScoreboardView {
        view_scoreboard(*self)
    }
}

impl View for Objectives {
    type V = ObjectivesView;

    open spec fn view(&self) -> ObjectivesView {
        view_objectives(*self)
    }
}

impl View for Players {
    type V = PlayersView;

    open spec fn view(&self) -> PlayersView {
        view_players(*self)
    }
}

impl View for Execute {
    type V = ExecuteView;

    open spec fn view(&self) -> ExecuteView {
        view_execute(*self)
    }
}

impl View for If {
    type V = IfView;

    open spec fn view(&self) -> IfView {
        view_if(*self)
    }
}

impl View for Score {
    type V = ScoreView;

    open spec fn view(&self) -> ScoreView {
        view_score(*self)
    }
}

impl View for SourceComparison {
    type V = SourceComparisonView;

    open spec fn view(&self) -> SourceComparisonView {
        view_source_comparison(*self)
    }
}

impl View for RangeComparison {
    type V = RangeComparisonView;

    open spec fn view(&self) -> RangeComparisonView {
        view_range_comparison(*self)
    }
}

impl View for Target {
    type V = TargetView;

    open spec fn view(&self) -> TargetView {
        view_target(*self)
    }
}

impl View for FunctionIdentifier {
    type V = FunctionIdentifierView;

    open spec fn view(&self) -> FunctionIdentifierView {
        view_function_identifier(*self)
    }
}

/// The views of a list of commands, in order.
pub open spec fn view_commands(s: Seq<Command>) -> Seq<CommandView> {
    s.map_values(|c: Command| view_command(c))
}

impl View for Function {
    type V = FunctionView;

    open spec fn view(&self) -> FunctionView {
        FunctionView {
            identifier: view_function_identifier(self.identifier),
            commands: view_commands(self.commands@),
        }
    }
}

impl View for Tellraw {
    type V = TellrawView;

    open spec fn view(&self) -> TellrawView {
        view_tellraw(*self)
    }
}


impl View for ObjectivesAdd {
    type V = ObjectivesAddView;

    open spec fn view(&self) -> ObjectivesAddView {
        ObjectivesAddView {
            objective: self.objective@,
            criteria: self.criteria,
            display_name: match self.display_name {
                Some(d) => Some(d@),
                None => None,
            },
        }
    }
}

impl View for ObjectivesModify {
    type V = ObjectivesModifyView;

    open spec fn view(&self) -> ObjectivesModifyView {
        ObjectivesModifyView { objective: self.objective@, modification: self.modification@ }
    }
}

impl View for Modification {
    type V = ModificationView;

    open spec fn view(&self) -> ModificationView {
        match self {
            Modification::DisplayName(d) => ModificationView::DisplayName(d@),
            Modification::RenderType(r) => ModificationView::RenderType(*r),
        }
    }
}

impl View for ObjectivesRemove {
    type V = ObjectivesRemoveView;

    open spec fn view(&self) -> ObjectivesRemoveView {
        ObjectivesRemoveView { objective: self.objective@ }
    }
}

impl View for ObjectivesSetDisplay {
    type V = ObjectivesSetDisplayView;

    open spec fn view(&self) -> ObjectivesSetDisplayView {
        ObjectivesSetDisplayView { slot: self.slot, objective: self.objective@ }
    }
}

impl View for PlayersAdd {
    type V = PlayersAddView;

    open spec fn view(&self) -> PlayersAddView {
        PlayersAddView {
            targets: view_target(self.targets),
            objective: self.objective@,
            score: self.score,
        }
    }
}

impl View for PlayersEnable {
    type V = PlayersEnableView;

    open spec fn view(&self) -> PlayersEnableView {
        PlayersEnableView { targets: view_target(self.targets), objective: self.objective@ }
    }
}

impl View for PlayersGet {
    type V = PlayersGetView;

    open spec fn view(&self) -> PlayersGetView {
        PlayersGetView { target: view_target(self.target), objective: self.objective@ }
    }
}

impl View for PlayersList {
    type V = PlayersListView;

    open spec fn view(&self) -> PlayersListView {
        PlayersListView {
            target: match self.target {
                Some(t) => Some(view_target(t)),
                None => None,
            },
        }
    }
}

impl View for PlayersOperation {
    type V = PlayersOperationView;

    open spec fn view(&self) -> PlayersOperationView {
        PlayersOperationView {
            targets: view_target(self.targets),
            target_objective: self.target_objective@,
            operation: self.operation,
            source: view_target(self.source),
            source_objective: self.source_objective@,
        }
    }
}

impl View for PlayersRemove {
    type V = PlayersRemoveView;

    open spec fn view(&self) -> PlayersRemoveView {
        PlayersRemoveView {
            targets: view_target(self.targets),
            objective: self.objective@,
            score: self.score,
        }
    }
}

impl View for PlayersReset {
    type V = PlayersResetView;

    open spec fn view(&self) -> PlayersResetView {
        PlayersResetView { targets: view_target(self.targets), objective: self.objective@ }
    }
}

impl View for PlayersSet {
    type V = PlayersSetView;

    open spec fn view(&self) -> PlayersSetView {
        PlayersSetView {
            targets: view_target(self.targets),
            objective: self.objective@,
            score: self.score,
        }
    }
}

} // verus!
