//! Lowering: rendering a [`Command`] back into its canonical textual form.
//!
//! [`spec_lower_command`] defines the canonical text of every command value;
//! [`lower`] produces it. Lowering is total over the model and is the left
//! inverse of parsing for well-formed commands (see [`crate::round_trip`]).

use vstd::prelude::*;
use vstd::string::*;

use crate::numbers::{i32_string, spec_i32_string};
use crate::{
    Command, CommandView, Criteria, DisplaySlot, Execute, ExecuteView, FunctionIdentifier,
    FunctionIdentifierView, If, IfView, Interval, Modification, ModificationView, Objectives,
    ObjectivesView, OperationType, Players, PlayersView, RangeComparison, RangeComparisonView,
    RenderType, Score, ScoreView, Scoreboard, ScoreboardView, Selector, SelectorVariable,
    SourceComparison, SourceComparisonView, Target, TargetView, Tellraw, TellrawView,
};

verus! {

pub open spec fn spec_lower_command(c: CommandView) -> Seq<char>
    decreases c,
{
    match c {
        CommandView::Scoreboard(s) => spec_lower_scoreboard(s),
        CommandView::Function(f) => spec_lower_function(f),
        CommandView::Execute(e) => spec_lower_execute(e),
        CommandView::Tellraw(t) => spec_lower_tellraw(t),
    }
}

pub open spec fn spec_lower_scoreboard(s: ScoreboardView) -> Seq<char>
    decreases s,
{
    match s {
        ScoreboardView::Objectives(o) => spec_lower_objectives(o),
        ScoreboardView::Players(p) => spec_lower_players(p),
    }
}

pub open spec fn spec_lower_objectives(o: ObjectivesView) -> Seq<char> {
    match o {
        ObjectivesView::Add(a) => match a.display_name {
            Some(display) => "scoreboard objectives add "@ + a.objective + " "@
                + spec_lower_criteria(a.criteria) + " \""@ + display + "\""@,
            None => "scoreboard objectives add "@ + a.objective + " "@ + spec_lower_criteria(
                a.criteria,
            ),
        },
        ObjectivesView::List => "scoreboard objectives list"@,
        ObjectivesView::Modify(m) => match m.modification {
            ModificationView::DisplayName(display) => "scoreboard objectives modify "@
                + m.objective + " displayname \""@ + display + "\""@,
            ModificationView::RenderType(RenderType::Hearts) => "scoreboard objectives modify "@
                + m.objective + " rendertype hearts"@,
            ModificationView::RenderType(RenderType::Integer) => "scoreboard objectives modify "@
                + m.objective + " rendertype integer"@,
        },
        ObjectivesView::Remove(r) => "scoreboard objectives remove "@ + r.objective,
        ObjectivesView::SetDisplay(sd) => "scoreboard objectives setdisplay "@
            + spec_lower_display_slot(sd.slot) + " "@ + sd.objective,
    }
}

pub open spec fn spec_lower_criteria(c: Criteria) -> Seq<char> {
    match c {
        Criteria::Dummy => "dummy"@,
    }
}

pub open spec fn spec_lower_display_slot(slot: DisplaySlot) -> Seq<char> {
    match slot {
        DisplaySlot::BelowName => "belowName"@,
        DisplaySlot::List => "list"@,
        DisplaySlot::Sidebar => "sidebar"@,
    }
}

pub open spec fn spec_lower_players(p: PlayersView) -> Seq<char> {
    match p {
        PlayersView::Add(a) => "scoreboard players add "@ + spec_lower_target(a.targets) + " "@
            + a.objective + " "@ + spec_i32_string(a.score as int),
        PlayersView::Enable(e) => "scoreboard players enable "@ + spec_lower_target(e.targets)
            + " "@ + e.objective,
        PlayersView::Get(g) => "scoreboard players get "@ + spec_lower_target(g.target) + " "@
            + g.objective,
        PlayersView::List(l) => match l.target {
            Some(t) => "scoreboard players list "@ + spec_lower_target(t),
            None => "scoreboard players list"@,
        },
        PlayersView::Operation(o) => "scoreboard players operation "@ + spec_lower_target(
            o.targets,
        ) + " "@ + o.target_objective + " "@ + spec_lower_operation(o.operation) + " "@
            + spec_lower_target(o.source) + " "@ + o.source_objective,
        PlayersView::Remove(r) => "scoreboard players remove "@ + spec_lower_target(r.targets)
            + " "@ + r.objective + " "@ + spec_i32_string(r.score as int),
        PlayersView::Reset(r) => "scoreboard players reset "@ + spec_lower_target(r.targets) + " "@
            + r.objective,
        PlayersView::SetScore(s) => "scoreboard players set "@ + spec_lower_target(s.targets)
            + " "@ + s.objective + " "@ + spec_i32_string(s.score as int),
    }
}

pub open spec fn spec_lower_operation(op: OperationType) -> Seq<char> {
    match op {
        OperationType::Addition => "+="@,
        OperationType::Subtraction => "-="@,
        OperationType::Multiplication => "*="@,
        OperationType::Division => "/="@,
        OperationType::Modulus => "%="@,
        OperationType::Assign => "="@,
        OperationType::Min => "<"@,
        OperationType::Max => ">"@,
        OperationType::Swap => "><"@,
    }
}

pub open spec fn spec_lower_function(f: FunctionIdentifierView) -> Seq<char> {
    match f.namespace {
        Some(ns) => "function "@ + ns + ":"@ + f.name,
        None => "function "@ + f.name,
    }
}

pub open spec fn spec_lower_target(t: TargetView) -> Seq<char> {
    match t {
        TargetView::Name(n) => n,
        TargetView::Selector(s) => spec_lower_selector(s),
    }
}

pub open spec fn spec_lower_selector(s: Selector) -> Seq<char> {
    match s.variable {
        SelectorVariable::P => "@p"@,
        SelectorVariable::R => "@r"@,
        SelectorVariable::A => "@a"@,
        SelectorVariable::E => "@e"@,
        SelectorVariable::S => "@s"@,
    }
}

pub open spec fn spec_lower_execute(e: ExecuteView) -> Seq<char>
    decreases e,
{
    match e {
        ExecuteView::If(i) => spec_lower_if(i),
    }
}

pub open spec fn spec_lower_if(i: IfView) -> Seq<char>
    decreases i,
{
    match i {
        IfView::Score(s) => spec_lower_score(s),
    }
}

pub open spec fn spec_lower_score(s: ScoreView) -> Seq<char>
    decreases s,
{
    match s {
        ScoreView::Less(sc) => spec_lower_source_comparison(sc, "<"@),
        ScoreView::LessEqual(sc) => spec_lower_source_comparison(sc, "<="@),
        ScoreView::Greater(sc) => spec_lower_source_comparison(sc, ">"@),
        ScoreView::GreaterEqual(sc) => spec_lower_source_comparison(sc, ">="@),
        ScoreView::Equal(sc) => spec_lower_source_comparison(sc, "="@),
        ScoreView::Matches(rc) => spec_lower_range_comparison(rc),
    }
}

pub open spec fn spec_lower_source_comparison(sc: SourceComparisonView, op: Seq<char>) -> Seq<char>
    decreases sc,
{
    "execute if score "@ + spec_lower_target(sc.target) + " "@ + sc.target_objective + " "@ + op
        + " "@ + spec_lower_target(sc.source) + " "@ + sc.source_objective + " run "@
        + spec_lower_command(*sc.command)
}

pub open spec fn spec_lower_range_comparison(rc: RangeComparisonView) -> Seq<char>
    decreases rc,
{
    "execute if score "@ + spec_lower_target(rc.target) + " "@ + rc.target_objective + " matches "@
        + spec_lower_interval(rc.interval) + " run "@ + spec_lower_command(*rc.command)
}

pub open spec fn spec_lower_interval(iv: Interval) -> Seq<char> {
    match iv {
        Interval::Value(v) => spec_i32_string(v as int),
        Interval::Bounded(a, b) => spec_i32_string(a as int) + ".."@ + spec_i32_string(b as int),
        Interval::LeftUnbounded(b) => ".."@ + spec_i32_string(b as int),
        Interval::RightUnbounded(a) => spec_i32_string(a as int) + ".."@,
    }
}

/// A `tellraw` has a canonical text so that lowering is total, but the line
/// grammar has no production for it: this form does not parse back.
pub open spec fn spec_lower_tellraw(t: TellrawView) -> Seq<char> {
    "tellraw "@ + spec_lower_target(t.target) + " \""@ + t.message + "\""@
}

/// Renders a command into its canonical text.
pub fn lower(command: Command) -> (r: String)
    ensures
        r@ == spec_lower_command(command@),
    decreases command,
{
    match command {
        Command::Scoreboard(s) => scoreboard(s),
        Command::Function(f) => function(f),
        Command::Execute(e) => execute(e),
        Command::Tellraw(t) => tellraw(t),
    }
}

pub fn scoreboard(sb: Scoreboard) -> (r: String)
    ensures
        r@ == spec_lower_scoreboard(sb@),
    decreases sb,
{
    match sb {
        Scoreboard::Objectives(o) => objectives(o),
        Scoreboard::Players(p) => players(p),
    }
}

pub fn objectives(obj: Objectives) -> (r: String)
    ensures
        r@ == spec_lower_objectives(obj@),
{
    let ghost o = obj@;
    match obj {
        Objectives::Add(a) => {
            let mut s = String::from_str("scoreboard objectives add ");
            s.append(a.objective.as_str());
            s.append(" ");
            let c = criteria(a.criteria);
            s.append(c.as_str());
            match &a.display_name {
                Some(display) => {
                    s.append(" \"");
                    s.append(display.as_str());
                    s.append("\"");
                },
                None => {},
            }
            proof {
                assert(s@ =~= spec_lower_objectives(o));
            }
            s
        },
        Objectives::List => {
            let s = String::from_str("scoreboard objectives list");
            s
        },
        Objectives::Modify(m) => {
            let mut s = String::from_str("scoreboard objectives modify ");
            s.append(m.objective.as_str());
            match &m.modification {
                Modification::DisplayName(display) => {
                    s.append(" displayname \"");
                    s.append(display.as_str());
                    s.append("\"");
                },
                Modification::RenderType(RenderType::Hearts) => {
                    s.append(" rendertype hearts");
                },
                Modification::RenderType(RenderType::Integer) => {
                    s.append(" rendertype integer");
                },
            }
            proof {
                assert(s@ =~= spec_lower_objectives(o));
            }
            s
        },
        Objectives::Remove(r) => {
            let mut s = String::from_str("scoreboard objectives remove ");
            s.append(r.objective.as_str());
            proof {
                assert(s@ =~= spec_lower_objectives(o));
            }
            s
        },
        Objectives::SetDisplay(sd) => {
            let mut s = String::from_str("scoreboard objectives setdisplay ");
            let slot = display_slot(sd.slot);
            s.append(slot);
            s.append(" ");
            s.append(sd.objective.as_str());
            proof {
                assert(s@ =~= spec_lower_objectives(o));
            }
            s
        },
    }
}

pub fn criteria(cr: Criteria) -> (r: String)
    ensures
        r@ == spec_lower_criteria(cr),
{
    match cr {
        Criteria::Dummy => String::from_str("dummy"),
    }
}

pub fn display_slot(slot: DisplaySlot) -> (r: &'static str)
    ensures
        r@ == spec_lower_display_slot(slot),
{
    match slot {
        DisplaySlot::BelowName => "belowName",
        DisplaySlot::List => "list",
        DisplaySlot::Sidebar => "sidebar",
    }
}

pub fn players(pl: Players) -> (r: String)
    ensures
        r@ == spec_lower_players(pl@),
{
    let ghost p = pl@;
    match pl {
        Players::Add(a) => {
            let mut s = String::from_str("scoreboard players add ");
            let t = target(a.targets);
            s.append(t.as_str());
            s.append(" ");
            s.append(a.objective.as_str());
            s.append(" ");
            let n = i32_string(a.score);
            s.append(n.as_str());
            proof {
                assert(s@ =~= spec_lower_players(p));
            }
            s
        },
        Players::Enable(e) => {
            let mut s = String::from_str("scoreboard players enable ");
            let t = target(e.targets);
            s.append(t.as_str());
            s.append(" ");
            s.append(e.objective.as_str());
            proof {
                assert(s@ =~= spec_lower_players(p));
            }
            s
        },
        Players::Get(g) => {
            let mut s = String::from_str("scoreboard players get ");
            let t = target(g.target);
            s.append(t.as_str());
            s.append(" ");
            s.append(g.objective.as_str());
            proof {
                assert(s@ =~= spec_lower_players(p));
            }
            s
        },
        Players::List(l) => {
            match l.target {
                Some(t0) => {
                    let mut s = String::from_str("scoreboard players list ");
                    let t = target(t0);
                    s.append(t.as_str());
                    proof {
                        assert(s@ =~= spec_lower_players(p));
                    }
                    s
                },
                None => String::from_str("scoreboard players list"),
            }
        },
        Players::Operation(o) => {
            let mut s = String::from_str("scoreboard players operation ");
            let t = target(o.targets);
            s.append(t.as_str());
            s.append(" ");
            s.append(o.target_objective.as_str());
            s.append(" ");
            let op = operation(o.operation);
            s.append(op);
            s.append(" ");
            let src = target(o.source);
            s.append(src.as_str());
            s.append(" ");
            s.append(o.source_objective.as_str());
            proof {
                assert(s@ =~= spec_lower_players(p));
            }
            s
        },
        Players::Remove(r) => {
            let mut s = String::from_str("scoreboard players remove ");
            let t = target(r.targets);
            s.append(t.as_str());
            s.append(" ");
            s.append(r.objective.as_str());
            s.append(" ");
            let n = i32_string(r.score);
            s.append(n.as_str());
            proof {
                assert(s@ =~= spec_lower_players(p));
            }
            s
        },
        Players::Reset(r) => {
            let mut s = String::from_str("scoreboard players reset ");
            let t = target(r.targets);
            s.append(t.as_str());
            s.append(" ");
            s.append(r.objective.as_str());
            proof {
                assert(s@ =~= spec_lower_players(p));
            }
            s
        },
        Players::SetScore(st) => {
            let mut s = String::from_str("scoreboard players set ");
            let t = target(st.targets);
            s.append(t.as_str());
            s.append(" ");
            s.append(st.objective.as_str());
            s.append(" ");
            let n = i32_string(st.score);
            s.append(n.as_str());
            proof {
                assert(s@ =~= spec_lower_players(p));
            }
            s
        },
    }
}

pub fn operation(operation_type: OperationType) -> (r: &'static str)
    ensures
        r@ == spec_lower_operation(operation_type),
{
    match operation_type {
        OperationType::Addition => "+=",
        OperationType::Subtraction => "-=",
        OperationType::Multiplication => "*=",
        OperationType::Division => "/=",
        OperationType::Modulus => "%=",
        OperationType::Assign => "=",
        OperationType::Min => "<",
        OperationType::Max => ">",
        OperationType::Swap => "><",
    }
}

pub fn function(ident: FunctionIdentifier) -> (r: String)
    ensures
        r@ == spec_lower_function(ident@),
{
    let ghost f = ident@;
    match ident.namespace {
        Some(ns) => {
            let mut s = String::from_str("function ");
            s.append(ns.as_str());
            s.append(":");
            s.append(ident.name.as_str());
            proof {
                assert(s@ =~= spec_lower_function(f));
            }
            s
        },
        None => {
            let mut s = String::from_str("function ");
            s.append(ident.name.as_str());
            proof {
                assert(s@ =~= spec_lower_function(f));
            }
            s
        },
    }
}

pub fn target(t: Target) -> (r: String)
    ensures
        r@ == spec_lower_target(t@),
{
    match t {
        Target::Name(n) => n,
        Target::Selector(s) => selector(s),
    }
}

pub fn selector(sel: Selector) -> (r: String)
    ensures
        r@ == spec_lower_selector(sel),
{
    match sel.variable {
        SelectorVariable::P => String::from_str("@p"),
        SelectorVariable::R => String::from_str("@r"),
        SelectorVariable::A => String::from_str("@a"),
        SelectorVariable::E => String::from_str("@e"),
        SelectorVariable::S => String::from_str("@s"),
    }
}

pub fn execute(e: Execute) -> (r: String)
    ensures
        r@ == spec_lower_execute(e@),
    decreases e,
{
    match e {
        Execute::If(i) => execute_if(i),
    }
}

pub fn execute_if(i: If) -> (r: String)
    ensures
        r@ == spec_lower_if(i@),
    decreases i,
{
    match i {
        If::Score(s) => score(s),
    }
}

pub fn score(s: Score) -> (r: String)
    ensures
        r@ == spec_lower_score(s@),
    decreases s,
{
    match s {
        Score::Less(src_cmp) => source_comparison(src_cmp, "<"),
        Score::LessEqual(src_cmp) => source_comparison(src_cmp, "<="),
        Score::Greater(src_cmp) => source_comparison(src_cmp, ">"),
        Score::GreaterEqual(src_cmp) => source_comparison(src_cmp, ">="),
        Score::Equal(src_cmp) => source_comparison(src_cmp, "="),
        Score::Matches(rng_cmp) => range_comparison(rng_cmp),
    }
}

pub fn source_comparison(cmp: SourceComparison, op_text: &str) -> (r: String)
    ensures
        r@ == spec_lower_source_comparison(cmp@, op_text@),
    decreases cmp,
{
    let ghost sc = cmp@;
    let mut s = String::from_str("execute if score ");
    let t = target(cmp.target);
    s.append(t.as_str());
    s.append(" ");
    s.append(cmp.target_objective.as_str());
    s.append(" ");
    s.append(op_text);
    s.append(" ");
    let src = target(cmp.source);
    s.append(src.as_str());
    s.append(" ");
    s.append(cmp.source_objective.as_str());
    s.append(" run ");
    let nested = lower(*cmp.command);
    s.append(nested.as_str());
    proof {
        assert(s@ =~= spec_lower_source_comparison(sc, op_text@));
    }
    s
}

pub fn range_comparison(cmp: RangeComparison) -> (r: String)
    ensures
        r@ == spec_lower_range_comparison(cmp@),
    decreases cmp,
{
    let ghost rc = cmp@;
    let mut s = String::from_str("execute if score ");
    let t = target(cmp.target);
    s.append(t.as_str());
    s.append(" ");
    s.append(cmp.target_objective.as_str());
    s.append(" matches ");
    let ivs = interval(cmp.interval);
    s.append(ivs.as_str());
    s.append(" run ");
    let nested = lower(*cmp.command);
    s.append(nested.as_str());
    proof {
        assert(s@ =~= spec_lower_range_comparison(rc));
    }
    s
}

pub fn interval(iv: Interval) -> (r: String)
    ensures
        r@ == spec_lower_interval(iv),
{
    match iv {
        Interval::Value(v) => i32_string(v),
        Interval::Bounded(a, b) => {
            let mut s = i32_string(a);
            s.append("..");
            let hi = i32_string(b);
            s.append(hi.as_str());
            proof {
                assert(s@ =~= spec_lower_interval(iv));
            }
            s
        },
        Interval::LeftUnbounded(b) => {
            let mut s = String::from_str("..");
            let hi = i32_string(b);
            s.append(hi.as_str());
            proof {
                assert(s@ =~= spec_lower_interval(iv));
            }
            s
        },
        Interval::RightUnbounded(a) => {
            let mut s = i32_string(a);
            s.append("..");
            proof {
                assert(s@ =~= spec_lower_interval(iv));
            }
            s
        },
    }
}

pub fn tellraw(tr: Tellraw) -> (r: String)
    ensures
        r@ == spec_lower_tellraw(tr@),
{
    let ghost t = tr@;
    let mut s = String::from_str("tellraw ");
    let tg = target(tr.target);
    s.append(tg.as_str());
    s.append(" \"");
    s.append(tr.message.as_str());
    s.append("\"");
    proof {
        assert(s@ =~= spec_lower_tellraw(t));
    }
    s
}

} // verus!
