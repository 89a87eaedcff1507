//! The interpreter: executing commands against mutable game state.
//!
//! A [`Game`] holds the scoreboard state together with buffers of log and
//! chat events; [`Game::execute`] runs one command and appends every
//! user-visible outcome to those buffers. The whole state is modeled by
//! [`GameCoreView`], and [`sp_execute_cmd`] defines, as a function on that
//! model, exactly what executing a command does — [`Game::execute`]'s
//! contract says the implementation computes it.
//!
//! Policies this interpreter fixes where the command language leaves them
//! open: a `function` call on a missing datapack or unknown name logs a
//! failure instead of aborting; function-call nesting deeper than
//! [`MAX_CALL_DEPTH`] logs a failure; division or modulus by zero logs a
//! failure and changes no score; division overflow wraps; an entity-selector
//! target where a player must be resolved logs an unsupported-target
//! failure; and the sub-commands without semantics (`enable`, `get`, `list`,
//! `reset`, and score comparisons other than `matches`) log an
//! unsupported-command failure rather than silently doing nothing.

use vstd::prelude::*;
use vstd::string::*;

use crate::lower::{display_slot as lower_display_slot, spec_lower_display_slot};
use crate::numbers::{i32_string, spec_i32_string, spec_nat_string, u64_string};
use crate::text::text_is;
use crate::{
    Command, CommandView, DisplaySlot, Execute, ExecuteView, Function, FunctionIdentifier,
    FunctionIdentifierView, FunctionView, If, IfView, Interval, Modification, Objectives,
    ObjectivesAdd, ObjectivesSetDisplay, OperationType, Players, RangeComparison,
    RangeComparisonView, RenderType, Score, ScoreView, Scoreboard, ScoreboardView, Target,
    TargetView,
};

verus! {

/// How deep `function` invocations may nest before the interpreter gives up
/// on a command.
pub const MAX_CALL_DEPTH: u32 = 32;

/// The severity of a log line: an ordinary outcome or a failed command.
#[derive(Debug, PartialEq, Eq, Copy, Clone, Structural)]
pub enum Level {
    Info,
    Fail,
}

/// A sink for log lines, implemented by the surrounding program.
pub trait Log {
    fn log(&mut self, level: Level, message: &str);
}

/// A sink for chat messages, implemented by the surrounding program.
pub trait Chat {
    fn tell(&mut self, players: Vec<String>, message: &str);
}

/// One recorded log line.
#[derive(Debug, PartialEq)]
pub struct LogEntry {
    pub level: Level,
    pub message: String,
}

#[verifier::ext_equal]
pub ghost struct LogEntryView {
    pub level: Level,
    pub message: Seq<char>,
}

impl View for LogEntry {
    type V = LogEntryView;

    open spec fn view(&self) -> LogEntryView {
        LogEntryView { level: self.level, message: self.message@ }
    }
}

/// One recorded chat event.
#[derive(Debug, PartialEq)]
pub struct ChatEvent {
    pub players: Vec<String>,
    pub message: String,
}

#[verifier::ext_equal]
pub ghost struct ChatEventView {
    pub players: Seq<Seq<char>>,
    pub message: Seq<char>,
}

impl View for ChatEvent {
    type V = ChatEventView;

    open spec fn view(&self) -> ChatEventView {
        ChatEventView {
            players: self.players@.map_values(|p: String| p@),
            message: self.message@,
        }
    }
}

/// An externally supplied bundle of named functions.
#[derive(Debug, PartialEq)]
pub struct Datapack {
    pub name: String,
    pub functions: Vec<Function>,
}

#[verifier::ext_equal]
pub ghost struct DatapackView {
    pub name: Seq<char>,
    pub functions: Seq<FunctionView>,
}

impl View for Datapack {
    type V = DatapackView;

    open spec fn view(&self) -> DatapackView {
        DatapackView {
            name: self.name@,
            functions: self.functions@.map_values(|f: Function| f@),
        }
    }
}

struct Objective {
    display_name: String,
    render_type: RenderType,
    data: Vec<(String, i32)>,
}

#[verifier::ext_equal]
pub ghost struct ObjectiveView {
    pub display_name: Seq<char>,
    pub render_type: RenderType,
    pub data: Seq<(Seq<char>, i32)>,
}

impl View for Objective {
    type V = ObjectiveView;

    closed spec fn view(&self) -> ObjectiveView {
        ObjectiveView {
            display_name: self.display_name@,
            render_type: self.render_type,
            data: view_data(self.data@),
        }
    }
}

struct Player {
    name: String,
}

struct Displays {
    below_name: Option<String>,
    list: Option<String>,
    sidebar: Option<String>,
}

#[verifier::ext_equal]
pub ghost struct DisplaysView {
    pub below_name: Option<Seq<char>>,
    pub list: Option<Seq<char>>,
    pub sidebar: Option<Seq<char>>,
}

impl View for Displays {
    type V = DisplaysView;

    closed spec fn view(&self) -> DisplaysView {
        DisplaysView {
            below_name: match self.below_name {
                Some(ref s) => Some(s@),
                None => None,
            },
            list: match self.list {
                Some(ref s) => Some(s@),
                None => None,
            },
            sidebar: match self.sidebar {
                Some(ref s) => Some(s@),
                None => None,
            },
        }
    }
}

struct GameCore {
    objectives: Vec<(String, Objective)>,
    displays: Displays,
    players: Vec<Player>,
    log: Vec<LogEntry>,
    chat: Vec<ChatEvent>,
}

/// The model of the interpreter state: objectives in insertion order, each
/// with per-player scores in insertion order, the three display slots, the
/// registered players, and everything logged or told so far.
#[verifier::ext_equal]
pub ghost struct GameCoreView {
    pub objectives: Seq<(Seq<char>, ObjectiveView)>,
    pub displays: DisplaysView,
    pub players: Seq<Seq<char>>,
    pub log: Seq<LogEntryView>,
    pub chat: Seq<ChatEventView>,
}

impl View for GameCore {
    type V = GameCoreView;

    closed spec fn view(&self) -> GameCoreView {
        GameCoreView {
            objectives: view_objs(self.objectives@),
            displays: self.displays@,
            players: self.players@.map_values(|p: Player| p.name@),
            log: self.log@.map_values(|e: LogEntry| e@),
            chat: self.chat@.map_values(|e: ChatEvent| e@),
        }
    }
}

/// The interpreter: scoreboard state, an optional datapack, and the buffers
/// of recorded events.
pub struct Game {
    core: GameCore,
    datapack: Option<Datapack>,
}

#[verifier::ext_equal]
pub ghost struct GameView {
    pub core: GameCoreView,
    pub datapack: Option<DatapackView>,
}

impl View for Game {
    type V = GameView;

    closed spec fn view(&self) -> GameView {
        GameView { core: self.core@, datapack: view_datapack(self.datapack) }
    }
}

/// The state of a freshly created game: no objectives, no displays, no
/// players, nothing logged.
pub open spec fn initial_core() -> GameCoreView {
    GameCoreView {
        objectives: Seq::empty(),
        displays: DisplaysView { below_name: None, list: None, sidebar: None },
        players: Seq::empty(),
        log: Seq::empty(),
        chat: Seq::empty(),
    }
}

// ---------------------------------------------------------------------------
// Model helpers.
// ---------------------------------------------------------------------------

/// The index of the first entry keyed `k`, or `-1`.
pub open spec fn assoc_index<T>(s: Seq<(Seq<char>, T)>, k: Seq<char>) -> int
    decreases s.len(),
{
    if s.len() == 0 {
        -1
    } else if s[0].0 == k {
        0
    } else {
        let r = assoc_index(s.drop_first(), k);
        if r == -1 {
            -1
        } else {
            r + 1
        }
    }
}

pub proof fn lemma_assoc_index_props<T>(s: Seq<(Seq<char>, T)>, k: Seq<char>)
    ensures
        -1 <= assoc_index(s, k) < s.len(),
        assoc_index(s, k) >= 0 ==> s[assoc_index(s, k)].0 == k,
        assoc_index(s, k) >= 0 ==> forall|j: int|
            0 <= j < assoc_index(s, k) ==> (#[trigger] s[j]).0 != k,
        assoc_index(s, k) == -1 ==> forall|j: int| 0 <= j < s.len() ==> (#[trigger] s[j]).0 != k,
    decreases s.len(),
{
    if s.len() > 0 && s[0].0 != k {
        lemma_assoc_index_props(s.drop_first(), k);
        assert(forall|j: int| 1 <= j < s.len() ==> s.drop_first()[j - 1] == #[trigger] s[j]);
    }
}

/// The first match is determined by any witness position whose predecessors
/// all miss.
pub proof fn lemma_assoc_index_at<T>(s: Seq<(Seq<char>, T)>, k: Seq<char>, i: int)
    requires
        0 <= i < s.len(),
        s[i].0 == k,
        forall|j: int| 0 <= j < i ==> (#[trigger] s[j]).0 != k,
    ensures
        assoc_index(s, k) == i,
    decreases s.len(),
{
    if i > 0 {
        assert(s.drop_first()[i - 1].0 == k);
        assert(forall|j: int| 0 <= j < i - 1 ==> (#[trigger] s.drop_first()[j]).0 != k) by {
            assert(forall|j: int|
                0 <= j < i - 1 ==> #[trigger] s.drop_first()[j] == s[j + 1]);
        }
        lemma_assoc_index_at(s.drop_first(), k, i - 1);
    }
}

/// A player's score under an objective: the recorded entry, or zero.
pub open spec fn sp_get_score(data: Seq<(Seq<char>, i32)>, player: Seq<char>) -> i32 {
    let i = assoc_index(data, player);
    if i >= 0 {
        data[i].1
    } else {
        0
    }
}

/// Records a player's score: overwrites the entry, or appends one.
pub open spec fn sp_set_score(
    data: Seq<(Seq<char>, i32)>,
    player: Seq<char>,
    v: i32,
) -> Seq<(Seq<char>, i32)> {
    let i = assoc_index(data, player);
    if i >= 0 {
        data.update(i, (player, v))
    } else {
        data.push((player, v))
    }
}

/// The index of the first function with the given identifier, or `-1`.
pub open spec fn fn_index(fns: Seq<FunctionView>, f: FunctionIdentifierView) -> int
    decreases fns.len(),
{
    if fns.len() == 0 {
        -1
    } else if fns[0].identifier == f {
        0
    } else {
        let r = fn_index(fns.drop_first(), f);
        if r == -1 {
            -1
        } else {
            r + 1
        }
    }
}

pub proof fn lemma_fn_index_props(fns: Seq<FunctionView>, f: FunctionIdentifierView)
    ensures
        -1 <= fn_index(fns, f) < fns.len(),
        fn_index(fns, f) >= 0 ==> fns[fn_index(fns, f)].identifier == f,
        fn_index(fns, f) == -1 ==> forall|j: int|
            0 <= j < fns.len() ==> (#[trigger] fns[j]).identifier != f,
    decreases fns.len(),
{
    if fns.len() > 0 && fns[0].identifier != f {
        lemma_fn_index_props(fns.drop_first(), f);
        assert(forall|j: int| 1 <= j < fns.len() ==> fns.drop_first()[j - 1] == #[trigger] fns[j]);
    }
}

pub proof fn lemma_fn_index_at(fns: Seq<FunctionView>, f: FunctionIdentifierView, i: int)
    requires
        0 <= i < fns.len(),
        fns[i].identifier == f,
        forall|j: int| 0 <= j < i ==> (#[trigger] fns[j]).identifier != f,
    ensures
        fn_index(fns, f) == i,
    decreases fns.len(),
{
    if i > 0 {
        assert(fns.drop_first()[i - 1].identifier == f);
        assert(forall|j: int|
            0 <= j < i - 1 ==> (#[trigger] fns.drop_first()[j]).identifier != f) by {
            assert(forall|j: int|
                0 <= j < i - 1 ==> #[trigger] fns.drop_first()[j] == fns[j + 1]);
        }
        lemma_fn_index_at(fns.drop_first(), f, i - 1);
    }
}

/// What a display slot currently shows.
pub open spec fn sp_slot_value(d: DisplaysView, slot: DisplaySlot) -> Option<Seq<char>> {
    match slot {
        DisplaySlot::BelowName => d.below_name,
        DisplaySlot::List => d.list,
        DisplaySlot::Sidebar => d.sidebar,
    }
}

/// Points a display slot at an objective.
pub open spec fn sp_slot_set(d: DisplaysView, slot: DisplaySlot, name: Seq<char>) -> DisplaysView {
    match slot {
        DisplaySlot::BelowName => DisplaysView { below_name: Some(name), ..d },
        DisplaySlot::List => DisplaysView { list: Some(name), ..d },
        DisplaySlot::Sidebar => DisplaysView { sidebar: Some(name), ..d },
    }
}

/// Appends one log line.
pub open spec fn sp_log(core: GameCoreView, level: Level, message: Seq<char>) -> GameCoreView {
    GameCoreView { log: core.log.push(LogEntryView { level, message }), ..core }
}

/// Appends one chat event.
pub open spec fn sp_chat(
    core: GameCoreView,
    players: Seq<Seq<char>>,
    message: Seq<char>,
) -> GameCoreView {
    GameCoreView { chat: core.chat.push(ChatEventView { players, message }), ..core }
}

/// The failure line for a missing objective.
pub open spec fn msg_unknown_objective(name: Seq<char>) -> Seq<char> {
    "Unknown scoreboard objective '"@ + name + "'"@
}

/// The display names of all objectives, each as ` [name]`.
pub open spec fn sp_display_list(objs: Seq<(Seq<char>, ObjectiveView)>) -> Seq<char>
    decreases objs.len(),
{
    if objs.len() == 0 {
        Seq::empty()
    } else {
        sp_display_list(objs.drop_last()) + " ["@ + objs.last().1.display_name + "]"@
    }
}

/// Whether a score lies in an interval; bounds are inclusive.
pub open spec fn sp_matches(v: i32, iv: Interval) -> bool {
    match iv {
        Interval::Value(x) => v == x,
        Interval::Bounded(a, b) => a <= v && v <= b,
        Interval::LeftUnbounded(b) => v <= b,
        Interval::RightUnbounded(a) => a <= v,
    }
}

/// The magnitude of an `i32`, as an unbounded integer.
pub open spec fn abs_int(x: i32) -> int {
    if x < 0 {
        -(x as int)
    } else {
        x as int
    }
}

/// Division truncated toward zero, with the one overflowing quotient
/// wrapping to `i32::MIN`; the divisor must not be zero.
pub open spec fn sp_div(t: i32, s: i32) -> i32 {
    if t == i32::MIN && s == -1 {
        i32::MIN
    } else {
        let q = abs_int(t) / abs_int(s);
        if (t < 0) != (s < 0) {
            (-q) as i32
        } else {
            q as i32
        }
    }
}

/// Remainder with the sign of the dividend, the companion of [`sp_div`];
/// the divisor must not be zero.
pub open spec fn sp_rem(t: i32, s: i32) -> i32 {
    if t == i32::MIN && s == -1 {
        0
    } else {
        let m = abs_int(t) % abs_int(s);
        if t < 0 {
            (-m) as i32
        } else {
            m as i32
        }
    }
}

/// The two scores an operation leaves behind, target first. Addition,
/// subtraction and multiplication wrap on overflow.
pub open spec fn sp_operation_values(op: OperationType, t: i32, s: i32) -> (i32, i32) {
    match op {
        OperationType::Addition => (t.wrapping_add(s), s),
        OperationType::Subtraction => (t.wrapping_sub(s), s),
        OperationType::Multiplication => (t.wrapping_mul(s), s),
        OperationType::Division => (sp_div(t, s), s),
        OperationType::Modulus => (sp_rem(t, s), s),
        OperationType::Assign => (s, s),
        OperationType::Min => (if t < s { t } else { s }, s),
        OperationType::Max => (if t > s { t } else { s }, s),
        OperationType::Swap => (s, t),
    }
}

// ---------------------------------------------------------------------------
// The interpreter at the level of the model.
// ---------------------------------------------------------------------------

/// The nesting depth of `execute ... run` conditions inside a command.
pub open spec fn cmd_height(c: CommandView) -> nat
    decreases c,
{
    match c {
        CommandView::Execute(ExecuteView::If(IfView::Score(sv))) => match sv {
            ScoreView::Less(sc) => 1 + cmd_height(*sc.command),
            ScoreView::LessEqual(sc) => 1 + cmd_height(*sc.command),
            ScoreView::Greater(sc) => 1 + cmd_height(*sc.command),
            ScoreView::GreaterEqual(sc) => 1 + cmd_height(*sc.command),
            ScoreView::Equal(sc) => 1 + cmd_height(*sc.command),
            ScoreView::Matches(rc) => 1 + cmd_height(*rc.command),
        },
        _ => 0,
    }
}

/// The combined height of a command list, larger than the height of any of
/// its members.
pub open spec fn cmds_height(cs: Seq<CommandView>) -> nat
    decreases cs.len(),
{
    if cs.len() == 0 {
        0
    } else {
        1 + cmd_height(cs[0]) + cmds_height(cs.drop_first())
    }
}

pub proof fn lemma_cmds_height_elem(cs: Seq<CommandView>, i: int)
    requires
        0 <= i < cs.len(),
    ensures
        cmds_height(cs) > cmd_height(cs[i]),
    decreases cs.len(),
{
    if i > 0 {
        lemma_cmds_height_elem(cs.drop_first(), i - 1);
    }
}

/// Executing `scoreboard objectives add`.
pub open spec fn sp_exec_objectives_add(
    core: GameCoreView,
    objective: Seq<char>,
    display_name: Option<Seq<char>>,
) -> GameCoreView {
    if assoc_index(core.objectives, objective) >= 0 {
        sp_log(core, Level::Fail, "An objective already exists by that name"@)
    } else {
        let display = match display_name {
            Some(d) => d,
            None => objective,
        };
        let with_obj = GameCoreView {
            objectives: core.objectives.push(
                (
                    objective,
                    ObjectiveView {
                        display_name: display,
                        render_type: RenderType::Integer,
                        data: Seq::empty(),
                    },
                ),
            ),
            ..core
        };
        sp_log(with_obj, Level::Info, "Created new objective ["@ + display + "]"@)
    }
}

/// Executing `scoreboard objectives list`.
pub open spec fn sp_exec_objectives_list(core: GameCoreView) -> GameCoreView {
    if core.objectives.len() == 0 {
        sp_log(core, Level::Info, "There are no objectives"@)
    } else {
        sp_log(
            core,
            Level::Info,
            "There are "@ + spec_nat_string(core.objectives.len()) + " objectives:"@
                + sp_display_list(core.objectives),
        )
    }
}

/// Executing `scoreboard objectives modify ... displayname`.
pub open spec fn sp_exec_modify_display_name(
    core: GameCoreView,
    objective: Seq<char>,
    new_name: Seq<char>,
) -> GameCoreView {
    let i = assoc_index(core.objectives, objective);
    if i < 0 {
        sp_log(core, Level::Fail, msg_unknown_objective(objective))
    } else if core.objectives[i].1.display_name == new_name {
        core
    } else {
        let updated = GameCoreView {
            objectives: core.objectives.update(
                i,
                (objective, ObjectiveView { display_name: new_name, ..core.objectives[i].1 }),
            ),
            ..core
        };
        sp_log(
            updated,
            Level::Info,
            "Changed objective "@ + objective + " display name to ["@ + new_name + "]"@,
        )
    }
}

/// Executing `scoreboard objectives modify ... rendertype`.
pub open spec fn sp_exec_modify_render_type(
    core: GameCoreView,
    objective: Seq<char>,
    new_render: RenderType,
) -> GameCoreView {
    let i = assoc_index(core.objectives, objective);
    if i < 0 {
        sp_log(core, Level::Fail, msg_unknown_objective(objective))
    } else if core.objectives[i].1.render_type == new_render {
        core
    } else {
        let updated = GameCoreView {
            objectives: core.objectives.update(
                i,
                (objective, ObjectiveView { render_type: new_render, ..core.objectives[i].1 }),
            ),
            ..core
        };
        sp_log(
            updated,
            Level::Info,
            "Changed objective ["@ + core.objectives[i].1.display_name + "] render type"@,
        )
    }
}

/// Executing `scoreboard objectives remove`.
pub open spec fn sp_exec_objectives_remove(
    core: GameCoreView,
    objective: Seq<char>,
) -> GameCoreView {
    let i = assoc_index(core.objectives, objective);
    if i < 0 {
        sp_log(core, Level::Fail, msg_unknown_objective(objective))
    } else {
        let removed = GameCoreView { objectives: core.objectives.remove(i), ..core };
        sp_log(
            removed,
            Level::Info,
            "Removed objective ["@ + core.objectives[i].1.display_name + "]"@,
        )
    }
}

/// Executing `scoreboard objectives setdisplay`.
pub open spec fn sp_exec_set_display(
    core: GameCoreView,
    slot: DisplaySlot,
    objective: Seq<char>,
) -> GameCoreView {
    let i = assoc_index(core.objectives, objective);
    if i < 0 {
        sp_log(core, Level::Fail, msg_unknown_objective(objective))
    } else if sp_slot_value(core.displays, slot) == Some(objective) {
        sp_log(
            core,
            Level::Fail,
            "Nothing changed. That display slot is already showing that objective"@,
        )
    } else {
        let updated = GameCoreView { displays: sp_slot_set(core.displays, slot, objective), ..core };
        sp_log(
            updated,
            Level::Info,
            "Set display slot "@ + spec_lower_display_slot(slot) + " to show objective "@
                + core.objectives[i].1.display_name,
        )
    }
}

/// Executing `scoreboard players add` (or, negated, `remove`) for a named
/// player: a wrapping addition to the stored score.
pub open spec fn sp_exec_players_add(
    core: GameCoreView,
    player: Seq<char>,
    objective: Seq<char>,
    score: i32,
    removing: bool,
) -> GameCoreView {
    let i = assoc_index(core.objectives, objective);
    if i < 0 {
        sp_log(core, Level::Fail, msg_unknown_objective(objective))
    } else {
        let obj = core.objectives[i].1;
        let prev = sp_get_score(obj.data, player);
        let now = if removing {
            prev.wrapping_sub(score)
        } else {
            prev.wrapping_add(score)
        };
        let updated = GameCoreView {
            objectives: core.objectives.update(
                i,
                (objective, ObjectiveView { data: sp_set_score(obj.data, player, now), ..obj }),
            ),
            ..core
        };
        let msg = if removing {
            "Removed "@ + spec_i32_string(score as int) + " from ["@ + obj.display_name + "] for "@
                + player + " (now "@ + spec_i32_string(now as int) + ")"@
        } else {
            "Added "@ + spec_i32_string(score as int) + " to ["@ + obj.display_name + "] for "@
                + player + " (now "@ + spec_i32_string(now as int) + ")"@
        };
        sp_log(updated, Level::Info, msg)
    }
}

/// Executing `scoreboard players set` for a named player.
pub open spec fn sp_exec_players_set(
    core: GameCoreView,
    player: Seq<char>,
    objective: Seq<char>,
    score: i32,
) -> GameCoreView {
    let i = assoc_index(core.objectives, objective);
    if i < 0 {
        sp_log(core, Level::Fail, msg_unknown_objective(objective))
    } else {
        let obj = core.objectives[i].1;
        let updated = GameCoreView {
            objectives: core.objectives.update(
                i,
                (objective, ObjectiveView { data: sp_set_score(obj.data, player, score), ..obj }),
            ),
            ..core
        };
        sp_log(
            updated,
            Level::Info,
            "Set ["@ + obj.display_name + "] for "@ + player + " to "@ + spec_i32_string(
                score as int,
            ),
        )
    }
}

/// Executing `scoreboard players operation` for named players: reads both
/// scores (absent entries count as zero), applies the operation, writes the
/// target's value and then the source's, and logs the target's stored value
/// after both writes.
pub open spec fn sp_exec_players_operation(
    core: GameCoreView,
    player: Seq<char>,
    target_objective: Seq<char>,
    op: OperationType,
    source_player: Seq<char>,
    source_objective: Seq<char>,
) -> GameCoreView {
    let ti = assoc_index(core.objectives, target_objective);
    let si = assoc_index(core.objectives, source_objective);
    if ti < 0 {
        sp_log(core, Level::Fail, msg_unknown_objective(target_objective))
    } else if si < 0 {
        sp_log(core, Level::Fail, msg_unknown_objective(source_objective))
    } else if (op == OperationType::Division || op == OperationType::Modulus) && sp_get_score(
        core.objectives[si].1.data,
        source_player,
    ) == 0 {
        sp_log(core, Level::Fail, "Cannot divide by zero"@)
    } else {
        let t_score = sp_get_score(core.objectives[ti].1.data, player);
        let s_score = sp_get_score(core.objectives[si].1.data, source_player);
        let pair = sp_operation_values(op, t_score, s_score);
        let after_target = core.objectives.update(
            ti,
            (
                target_objective,
                ObjectiveView {
                    data: sp_set_score(core.objectives[ti].1.data, player, pair.0),
                    ..core.objectives[ti].1
                },
            ),
        );
        let after_source = after_target.update(
            si,
            (
                source_objective,
                ObjectiveView {
                    data: sp_set_score(after_target[si].1.data, source_player, pair.1),
                    ..after_target[si].1
                },
            ),
        );
        let updated = GameCoreView { objectives: after_source, ..core };
        sp_log(
            updated,
            Level::Info,
            "Set ["@ + after_source[ti].1.display_name + "] for "@ + player + " to "@
                + spec_i32_string(sp_get_score(after_source[ti].1.data, player) as int),
        )
    }
}

/// The failure line for a target the interpreter cannot resolve.
pub open spec fn msg_unsupported_target() -> Seq<char> {
    "Unsupported target"@
}

/// The failure line for a sub-command without semantics.
pub open spec fn msg_unsupported_command() -> Seq<char> {
    "Unsupported command"@
}

/// Executing any `scoreboard players ...` sub-command.
pub open spec fn sp_exec_players(core: GameCoreView, p: crate::PlayersView) -> GameCoreView {
    match p {
        crate::PlayersView::Add(a) => match a.targets {
            TargetView::Name(player) => sp_exec_players_add(
                core,
                player,
                a.objective,
                a.score,
                false,
            ),
            TargetView::Selector(_) => sp_log(core, Level::Fail, msg_unsupported_target()),
        },
        crate::PlayersView::Remove(r) => match r.targets {
            TargetView::Name(player) => sp_exec_players_add(core, player, r.objective, r.score, true),
            TargetView::Selector(_) => sp_log(core, Level::Fail, msg_unsupported_target()),
        },
        crate::PlayersView::SetScore(s) => match s.targets {
            TargetView::Name(player) => sp_exec_players_set(core, player, s.objective, s.score),
            TargetView::Selector(_) => sp_log(core, Level::Fail, msg_unsupported_target()),
        },
        crate::PlayersView::Operation(o) => match (o.targets, o.source) {
            (TargetView::Name(player), TargetView::Name(source_player)) => sp_exec_players_operation(
                core,
                player,
                o.target_objective,
                o.operation,
                source_player,
                o.source_objective,
            ),
            _ => sp_log(core, Level::Fail, msg_unsupported_target()),
        },
        _ => sp_log(core, Level::Fail, msg_unsupported_command()),
    }
}

/// Executing any `scoreboard objectives ...` sub-command.
pub open spec fn sp_exec_objectives(core: GameCoreView, o: crate::ObjectivesView) -> GameCoreView {
    match o {
        crate::ObjectivesView::Add(a) => sp_exec_objectives_add(core, a.objective, a.display_name),
        crate::ObjectivesView::List => sp_exec_objectives_list(core),
        crate::ObjectivesView::Modify(m) => match m.modification {
            crate::ModificationView::DisplayName(d) => sp_exec_modify_display_name(
                core,
                m.objective,
                d,
            ),
            crate::ModificationView::RenderType(rt) => sp_exec_modify_render_type(
                core,
                m.objective,
                rt,
            ),
        },
        crate::ObjectivesView::Remove(r) => sp_exec_objectives_remove(core, r.objective),
        crate::ObjectivesView::SetDisplay(sd) => sp_exec_set_display(core, sd.slot, sd.objective),
    }
}

/// The text of a function identifier, `namespace:name` or bare `name`.
pub open spec fn sp_fid_text(f: FunctionIdentifierView) -> Seq<char> {
    match f.namespace {
        Some(ns) => ns + ":"@ + f.name,
        None => f.name,
    }
}

/// Executing one command against the model. `fuel` bounds how deep
/// `function` invocations may still nest.
pub open spec fn sp_execute_cmd(
    core: GameCoreView,
    dp: Option<DatapackView>,
    c: CommandView,
    fuel: nat,
) -> GameCoreView
    decreases fuel, cmd_height(c), 1int,
{
    match c {
        CommandView::Scoreboard(ScoreboardView::Objectives(o)) => sp_exec_objectives(core, o),
        CommandView::Scoreboard(ScoreboardView::Players(p)) => sp_exec_players(core, p),
        CommandView::Function(f) => {
            if fuel == 0 {
                sp_log(core, Level::Fail, "Function call depth limit exceeded"@)
            } else {
                match dp {
                    None => sp_log(
                        core,
                        Level::Fail,
                        "Unknown function '"@ + sp_fid_text(f) + "'"@,
                    ),
                    Some(d) => {
                        let i = fn_index(d.functions, f);
                        if i >= 0 {
                            sp_execute_cmds(core, dp, d.functions[i].commands, (fuel - 1) as nat)
                        } else {
                            sp_log(
                                core,
                                Level::Fail,
                                "Unknown function '"@ + sp_fid_text(f) + "'"@,
                            )
                        }
                    },
                }
            }
        },
        CommandView::Execute(ExecuteView::If(IfView::Score(sv))) => match sv {
            ScoreView::Matches(rc) => sp_exec_matches(core, dp, rc, fuel),
            _ => sp_log(core, Level::Fail, msg_unsupported_command()),
        },
        CommandView::Tellraw(t) => sp_chat(core, Seq::empty(), t.message),
    }
}

/// Executing `execute if score ... matches ... run ...`: the nested command
/// runs when the target objective exists, the player has a recorded score,
/// and that score lies in the interval; a missing objective fails, a missing
/// score silently does not match.
pub open spec fn sp_exec_matches(
    core: GameCoreView,
    dp: Option<DatapackView>,
    rc: RangeComparisonView,
    fuel: nat,
) -> GameCoreView
    decreases fuel, cmd_height(CommandView::Execute(ExecuteView::If(IfView::Score(ScoreView::Matches(rc))))), 0int,
{
    match rc.target {
        TargetView::Selector(_) => sp_log(core, Level::Fail, msg_unsupported_target()),
        TargetView::Name(player) => {
            let i = assoc_index(core.objectives, rc.target_objective);
            if i < 0 {
                sp_log(core, Level::Fail, msg_unknown_objective(rc.target_objective))
            } else {
                let j = assoc_index(core.objectives[i].1.data, player);
                if j >= 0 && sp_matches(core.objectives[i].1.data[j].1, rc.interval) {
                    sp_execute_cmd(core, dp, *rc.command, fuel)
                } else {
                    core
                }
            }
        },
    }
}

/// Executing a list of commands in order.
pub open spec fn sp_execute_cmds(
    core: GameCoreView,
    dp: Option<DatapackView>,
    cs: Seq<CommandView>,
    fuel: nat,
) -> GameCoreView
    decreases fuel, cmds_height(cs), 0int,
{
    if cs.len() == 0 {
        core
    } else {
        sp_execute_cmds(sp_execute_cmd(core, dp, cs[0], fuel), dp, cs.drop_first(), fuel)
    }
}

// ---------------------------------------------------------------------------
// The interpreter, executable side.
// ---------------------------------------------------------------------------

/// The model of an objective store.
spec fn view_objs(v: Seq<(String, Objective)>) -> Seq<(Seq<char>, ObjectiveView)> {
    v.map_values(|e: (String, Objective)| (e.0@, e.1@))
}

/// The model of a score store.
spec fn view_data(v: Seq<(String, i32)>) -> Seq<(Seq<char>, i32)> {
    v.map_values(|e: (String, i32)| (e.0@, e.1))
}

/// The model of an optional datapack.
pub open spec fn view_datapack(dp: Option<Datapack>) -> Option<DatapackView> {
    match dp {
        Some(d) => Some(d@),
        None => None,
    }
}

proof fn lemma_objs_update(s: Seq<(String, Objective)>, i: int, x: (String, Objective))
    requires
        0 <= i < s.len(),
    ensures
        view_objs(s.remove(i).insert(i, x)) =~= view_objs(s).update(i, (x.0@, x.1@)),
{
    assert(s.remove(i).insert(i, x) =~= s.update(i, x));
}

fn find_objective(objectives: &Vec<(String, Objective)>, name: &str) -> (r: Option<usize>)
    ensures
        match r {
            Some(i) => i < objectives@.len() && assoc_index(view_objs(objectives@), name@)
                == i as int,
            None => assoc_index(view_objs(objectives@), name@) == -1,
        },
{
    let ghost v = view_objs(objectives@);
    let mut i: usize = 0;
    while i < objectives.len()
        invariant
            i <= objectives@.len(),
            v == view_objs(objectives@),
            forall|j: int| 0 <= j < i ==> (#[trigger] v[j]).0 != name@,
        decreases objectives@.len() - i,
    {
        let e = &objectives[i];
        if text_is(&e.0, name) {
            proof {
                lemma_assoc_index_at(v, name@, i as int);
            }
            return Some(i);
        }
        i += 1;
    }
    proof {
        lemma_assoc_index_props(v, name@);
    }
    None
}

fn find_data(data: &Vec<(String, i32)>, name: &str) -> (r: Option<usize>)
    ensures
        match r {
            Some(i) => i < data@.len() && assoc_index(view_data(data@), name@) == i as int,
            None => assoc_index(view_data(data@), name@) == -1,
        },
{
    let ghost v = view_data(data@);
    let mut i: usize = 0;
    while i < data.len()
        invariant
            i <= data@.len(),
            v == view_data(data@),
            forall|j: int| 0 <= j < i ==> (#[trigger] v[j]).0 != name@,
        decreases data@.len() - i,
    {
        let e = &data[i];
        if text_is(&e.0, name) {
            proof {
                lemma_assoc_index_at(v, name@, i as int);
            }
            return Some(i);
        }
        i += 1;
    }
    proof {
        lemma_assoc_index_props(v, name@);
    }
    None
}

/// A player's stored score, zero when absent.
fn get_score(data: &Vec<(String, i32)>, name: &str) -> (r: i32)
    ensures
        r == sp_get_score(view_data(data@), name@),
{
    match find_data(data, name) {
        Some(i) => data[i].1,
        None => 0,
    }
}

/// Records a player's score.
fn set_score(data: &mut Vec<(String, i32)>, name: &str, v: i32)
    ensures
        view_data(final(data)@) == sp_set_score(view_data(old(data)@), name@, v),
{
    let ghost before = view_data(old(data)@);
    match find_data(data, name) {
        Some(i) => {
            proof {
                lemma_assoc_index_props(before, name@);
            }
            let e = data.remove(i);
            data.insert(i, (e.0, v));
            proof {
                assert(old(data)@.remove(i as int).insert(i as int, (e.0, v)) =~= old(
                    data,
                )@.update(i as int, (e.0, v)));
                assert(view_data(data@) =~~= before.update(i as int, (name@, v)));
            }
        },
        None => {
            data.push((String::from_str(name), v));
            proof {
                assert(view_data(data@) =~~= before.push((name@, v)));
            }
        },
    }
}

fn matches_interval(v: i32, iv: &Interval) -> (r: bool)
    ensures
        r == sp_matches(v, *iv),
{
    match iv {
        Interval::Value(x) => v == *x,
        Interval::Bounded(a, b) => *a <= v && v <= *b,
        Interval::LeftUnbounded(b) => v <= *b,
        Interval::RightUnbounded(a) => *a <= v,
    }
}

/// Division truncated toward zero, wrapping on the one overflowing case.
fn div_trunc(t: i32, s: i32) -> (r: i32)
    requires
        s != 0,
    ensures
        r == sp_div(t, s),
{
    if t == i32::MIN && s == -1 {
        i32::MIN
    } else {
        let mt: u32 = if t < 0 {
            (-(t as i64)) as u32
        } else {
            t as u32
        };
        let ms: u32 = if s < 0 {
            (-(s as i64)) as u32
        } else {
            s as u32
        };
        let q: u32 = mt / ms;
        proof {
            assert(mt as int == abs_int(t));
            assert(ms as int == abs_int(s));
            vstd::arithmetic::div_mod::lemma_div_pos_is_pos(mt as int, ms as int);
            vstd::arithmetic::div_mod::lemma_div_nonincreasing(mt as int, ms as int);
            if t == i32::MIN && s < 0 {
                vstd::arithmetic::div_mod::lemma_div_is_ordered_by_denominator(
                    mt as int,
                    2,
                    ms as int,
                );
            }
        }
        if (t < 0) != (s < 0) {
            (-(q as i64)) as i32
        } else {
            q as i32
        }
    }
}

/// Remainder with the sign of the dividend.
fn rem_trunc(t: i32, s: i32) -> (r: i32)
    requires
        s != 0,
    ensures
        r == sp_rem(t, s),
{
    if t == i32::MIN && s == -1 {
        0
    } else {
        let mt: u32 = if t < 0 {
            (-(t as i64)) as u32
        } else {
            t as u32
        };
        let ms: u32 = if s < 0 {
            (-(s as i64)) as u32
        } else {
            s as u32
        };
        let m: u32 = mt % ms;
        proof {
            assert(mt as int == abs_int(t));
            assert(ms as int == abs_int(s));
        }
        if t < 0 {
            (-(m as i64)) as i32
        } else {
            m as i32
        }
    }
}

/// Applies one binary score operation; division and modulus need a nonzero
/// source score.
fn apply_operation(op: &OperationType, t: i32, s: i32) -> (r: (i32, i32))
    requires
        (*op == OperationType::Division || *op == OperationType::Modulus) ==> s != 0,
    ensures
        r == sp_operation_values(*op, t, s),
{
    match op {
        OperationType::Addition => (t.wrapping_add(s), s),
        OperationType::Subtraction => (t.wrapping_sub(s), s),
        OperationType::Multiplication => (t.wrapping_mul(s), s),
        OperationType::Division => (div_trunc(t, s), s),
        OperationType::Modulus => (rem_trunc(t, s), s),
        OperationType::Assign => (s, s),
        OperationType::Min => (if t < s { t } else { s }, s),
        OperationType::Max => (if t > s { t } else { s }, s),
        OperationType::Swap => (s, t),
    }
}

/// The failure message for a missing objective.
fn unknown_objective_message(name: &String) -> (r: String)
    ensures
        r@ == msg_unknown_objective(name@),
{
    let mut m = String::from_str("Unknown scoreboard objective '");
    m.append(name.as_str());
    m.append("'");
    proof {
        assert(m@ =~= msg_unknown_objective(name@));
    }
    m
}

impl GameCore {
    fn log_push(&mut self, level: Level, message: String)
        ensures
            final(self)@ == sp_log(old(self)@, level, message@),
    {
        let ghost msg = message@;
        self.log.push(LogEntry { level, message });
        proof {
            assert(self@.log =~~= old(self)@.log.push(LogEntryView { level, message: msg }));
            assert(self@ =~~= sp_log(old(self)@, level, msg));
        }
    }

    fn chat_push(&mut self, players: Vec<String>, message: String)
        ensures
            final(self)@ == sp_chat(
                old(self)@,
                players@.map_values(|p: String| p@),
                message@,
            ),
    {
        let ghost pv = players@.map_values(|p: String| p@);
        let ghost msg = message@;
        self.chat.push(ChatEvent { players, message });
        proof {
            assert(self@.chat =~~= old(self)@.chat.push(ChatEventView { players: pv, message: msg }));
            assert(self@ =~~= sp_chat(old(self)@, pv, msg));
        }
    }

    fn do_objectives_add(&mut self, a: &ObjectivesAdd)
        ensures
            final(self)@ == sp_exec_objectives_add(old(self)@, a.objective@, a@.display_name),
    {
        match find_objective(&self.objectives, a.objective.as_str()) {
            Some(_) => {
                self.log_push(
                    Level::Fail,
                    String::from_str("An objective already exists by that name"),
                );
            },
            None => {
                let display = match &a.display_name {
                    Some(d) => d.clone(),
                    None => a.objective.clone(),
                };
                let ghost dv = display@;
                let obj = Objective {
                    display_name: display.clone(),
                    render_type: RenderType::Integer,
                    data: Vec::new(),
                };
                self.objectives.push((a.objective.clone(), obj));
                proof {
                    assert(self@.objectives =~~= old(self)@.objectives.push(
                        (
                            a.objective@,
                            ObjectiveView {
                                display_name: dv,
                                render_type: RenderType::Integer,
                                data: Seq::empty(),
                            },
                        ),
                    ));
                }
                let mut msg = String::from_str("Created new objective [");
                msg.append(display.as_str());
                msg.append("]");
                proof {
                    assert(msg@ =~= "Created new objective ["@ + dv + "]"@);
                }
                self.log_push(Level::Info, msg);
                proof {
                    assert(self@ =~~= sp_exec_objectives_add(
                        old(self)@,
                        a.objective@,
                        a@.display_name,
                    ));
                }
            },
        }
    }

    fn do_objectives_list(&mut self)
        ensures
            final(self)@ == sp_exec_objectives_list(old(self)@),
    {
        if self.objectives.len() == 0 {
            self.log_push(Level::Info, String::from_str("There are no objectives"));
        } else {
            let ghost v = view_objs(self.objectives@);
            let n = self.objectives.len();
            let mut list_text = String::new();
            let mut i: usize = 0;
            while i < n
                invariant
                    i <= n,
                    n == self.objectives@.len(),
                    v == view_objs(self.objectives@),
                    list_text@ == sp_display_list(v.take(i as int)),
                decreases n - i,
            {
                list_text.append(" [");
                list_text.append(self.objectives[i].1.display_name.as_str());
                list_text.append("]");
                proof {
                    assert(v.take(i + 1).drop_last() =~= v.take(i as int));
                    assert(list_text@ =~= sp_display_list(v.take(i + 1)));
                }
                i += 1;
            }
            proof {
                assert(v.take(n as int) =~= v);
            }
            let mut msg = String::from_str("There are ");
            let count = u64_string(n as u64);
            msg.append(count.as_str());
            msg.append(" objectives:");
            msg.append(list_text.as_str());
            proof {
                assert(msg@ =~= "There are "@ + spec_nat_string(v.len()) + " objectives:"@
                    + sp_display_list(v));
            }
            self.log_push(Level::Info, msg);
        }
    }

    fn do_modify_display_name(&mut self, objective: &String, new_name: &String)
        ensures
            final(self)@ == sp_exec_modify_display_name(old(self)@, objective@, new_name@),
    {
        match find_objective(&self.objectives, objective.as_str()) {
            None => {
                let msg = unknown_objective_message(objective);
                self.log_push(Level::Fail, msg);
            },
            Some(i) => {
                if text_is(&self.objectives[i].1.display_name, new_name.as_str()) {
                } else {
                    proof {
                        lemma_assoc_index_props(view_objs(self.objectives@), objective@);
                    }
                    let mut pair = self.objectives.remove(i);
                    pair.1.display_name = new_name.clone();
                    let ghost px = pair;
                    self.objectives.insert(i, pair);
                    proof {
                        lemma_objs_update(old(self).objectives@, i as int, px);
                        assert(self@ =~~= GameCoreView {
                            objectives: old(self)@.objectives.update(
                                i as int,
                                (
                                    objective@,
                                    ObjectiveView {
                                        display_name: new_name@,
                                        ..old(self)@.objectives[i as int].1
                                    },
                                ),
                            ),
                            ..old(self)@
                        });
                    }
                    let mut msg = String::from_str("Changed objective ");
                    msg.append(objective.as_str());
                    msg.append(" display name to [");
                    msg.append(new_name.as_str());
                    msg.append("]");
                    proof {
                        assert(msg@ =~= "Changed objective "@ + objective@
                            + " display name to ["@ + new_name@ + "]"@);
                    }
                    self.log_push(Level::Info, msg);
                }
            },
        }
    }

    fn do_modify_render_type(&mut self, objective: &String, new_render: RenderType)
        ensures
            final(self)@ == sp_exec_modify_render_type(old(self)@, objective@, new_render),
    {
        match find_objective(&self.objectives, objective.as_str()) {
            None => {
                let msg = unknown_objective_message(objective);
                self.log_push(Level::Fail, msg);
            },
            Some(i) => {
                if self.objectives[i].1.render_type == new_render {
                } else {
                    let display = self.objectives[i].1.display_name.clone();
                    proof {
                        lemma_assoc_index_props(view_objs(self.objectives@), objective@);
                    }
                    let mut pair = self.objectives.remove(i);
                    pair.1.render_type = new_render;
                    let ghost px = pair;
                    self.objectives.insert(i, pair);
                    proof {
                        lemma_objs_update(old(self).objectives@, i as int, px);
                        assert(self@ =~~= GameCoreView {
                            objectives: old(self)@.objectives.update(
                                i as int,
                                (
                                    objective@,
                                    ObjectiveView {
                                        render_type: new_render,
                                        ..old(self)@.objectives[i as int].1
                                    },
                                ),
                            ),
                            ..old(self)@
                        });
                    }
                    let mut msg = String::from_str("Changed objective [");
                    msg.append(display.as_str());
                    msg.append("] render type");
                    proof {
                        assert(msg@ =~= "Changed objective ["@
                            + old(self)@.objectives[i as int].1.display_name
                            + "] render type"@);
                    }
                    self.log_push(Level::Info, msg);
                }
            },
        }
    }

    fn do_objectives_remove(&mut self, objective: &String)
        ensures
            final(self)@ == sp_exec_objectives_remove(old(self)@, objective@),
    {
        match find_objective(&self.objectives, objective.as_str()) {
            None => {
                let msg = unknown_objective_message(objective);
                self.log_push(Level::Fail, msg);
            },
            Some(i) => {
                let pair = self.objectives.remove(i);
                proof {
                    assert(self@.objectives =~~= old(self)@.objectives.remove(i as int));
                    assert(self@ =~~= GameCoreView {
                        objectives: old(self)@.objectives.remove(i as int),
                        ..old(self)@
                    });
                }
                let mut msg = String::from_str("Removed objective [");
                msg.append(pair.1.display_name.as_str());
                msg.append("]");
                proof {
                    assert(msg@ =~= "Removed objective ["@
                        + old(self)@.objectives[i as int].1.display_name + "]"@);
                }
                self.log_push(Level::Info, msg);
            },
        }
    }

    fn slot_shows(&self, slot: DisplaySlot, objective: &String) -> (r: bool)
        ensures
            r == (sp_slot_value(self@.displays, slot) == Some(objective@)),
    {
        let current = match slot {
            DisplaySlot::BelowName => &self.displays.below_name,
            DisplaySlot::List => &self.displays.list,
            DisplaySlot::Sidebar => &self.displays.sidebar,
        };
        match current {
            Some(shown) => text_is(shown, objective.as_str()),
            None => false,
        }
    }

    fn do_set_display(&mut self, sd: &ObjectivesSetDisplay)
        ensures
            final(self)@ == sp_exec_set_display(old(self)@, sd.slot, sd.objective@),
    {
        match find_objective(&self.objectives, sd.objective.as_str()) {
            None => {
                let msg = unknown_objective_message(&sd.objective);
                self.log_push(Level::Fail, msg);
            },
            Some(i) => {
                if self.slot_shows(sd.slot, &sd.objective) {
                    self.log_push(
                        Level::Fail,
                        String::from_str(
                            "Nothing changed. That display slot is already showing that objective",
                        ),
                    );
                } else {
                    let display = self.objectives[i].1.display_name.clone();
                    match sd.slot {
                        DisplaySlot::BelowName => {
                            self.displays.below_name = Some(sd.objective.clone());
                        },
                        DisplaySlot::List => {
                            self.displays.list = Some(sd.objective.clone());
                        },
                        DisplaySlot::Sidebar => {
                            self.displays.sidebar = Some(sd.objective.clone());
                        },
                    }
                    proof {
                        assert(self@ =~~= GameCoreView {
                            displays: sp_slot_set(old(self)@.displays, sd.slot, sd.objective@),
                            ..old(self)@
                        });
                    }
                    let mut msg = String::from_str("Set display slot ");
                    let slot_text = lower_display_slot(sd.slot);
                    msg.append(slot_text);
                    msg.append(" to show objective ");
                    msg.append(display.as_str());
                    proof {
                        assert(msg@ =~= "Set display slot "@ + spec_lower_display_slot(sd.slot)
                            + " to show objective "@
                            + old(self)@.objectives[i as int].1.display_name);
                    }
                    self.log_push(Level::Info, msg);
                }
            },
        }
    }

    fn do_players_add(&mut self, player: &String, objective: &String, score: i32, removing: bool)
        ensures
            final(self)@ == sp_exec_players_add(old(self)@, player@, objective@, score, removing),
    {
        match find_objective(&self.objectives, objective.as_str()) {
            None => {
                let msg = unknown_objective_message(objective);
                self.log_push(Level::Fail, msg);
            },
            Some(i) => {
                let prev = get_score(&self.objectives[i].1.data, player.as_str());
                let now = if removing {
                    prev.wrapping_sub(score)
                } else {
                    prev.wrapping_add(score)
                };
                let display = self.objectives[i].1.display_name.clone();
                proof {
                    lemma_assoc_index_props(view_objs(self.objectives@), objective@);
                }
                let mut pair = self.objectives.remove(i);
                set_score(&mut pair.1.data, player.as_str(), now);
                let ghost px = pair;
                self.objectives.insert(i, pair);
                proof {
                    lemma_objs_update(old(self).objectives@, i as int, px);
                    assert(self@ =~~= GameCoreView {
                        objectives: old(self)@.objectives.update(
                            i as int,
                            (
                                objective@,
                                ObjectiveView {
                                    data: sp_set_score(
                                        old(self)@.objectives[i as int].1.data,
                                        player@,
                                        now,
                                    ),
                                    ..old(self)@.objectives[i as int].1
                                },
                            ),
                        ),
                        ..old(self)@
                    });
                }
                let mut msg = if removing {
                    String::from_str("Removed ")
                } else {
                    String::from_str("Added ")
                };
                let amount = i32_string(score);
                msg.append(amount.as_str());
                if removing {
                    msg.append(" from [");
                } else {
                    msg.append(" to [");
                }
                msg.append(display.as_str());
                msg.append("] for ");
                msg.append(player.as_str());
                msg.append(" (now ");
                let now_text = i32_string(now);
                msg.append(now_text.as_str());
                msg.append(")");
                proof {
                    let dv = old(self)@.objectives[i as int].1.display_name;
                    if removing {
                        assert(msg@ =~= "Removed "@ + spec_i32_string(score as int) + " from ["@
                            + dv + "] for "@ + player@ + " (now "@ + spec_i32_string(now as int)
                            + ")"@);
                    } else {
                        assert(msg@ =~= "Added "@ + spec_i32_string(score as int) + " to ["@ + dv
                            + "] for "@ + player@ + " (now "@ + spec_i32_string(now as int)
                            + ")"@);
                    }
                }
                self.log_push(Level::Info, msg);
            },
        }
    }

    fn do_players_set(&mut self, player: &String, objective: &String, score: i32)
        ensures
            final(self)@ == sp_exec_players_set(old(self)@, player@, objective@, score),
    {
        match find_objective(&self.objectives, objective.as_str()) {
            None => {
                let msg = unknown_objective_message(objective);
                self.log_push(Level::Fail, msg);
            },
            Some(i) => {
                let display = self.objectives[i].1.display_name.clone();
                proof {
                    lemma_assoc_index_props(view_objs(self.objectives@), objective@);
                }
                let mut pair = self.objectives.remove(i);
                set_score(&mut pair.1.data, player.as_str(), score);
                let ghost px = pair;
                self.objectives.insert(i, pair);
                proof {
                    lemma_objs_update(old(self).objectives@, i as int, px);
                    assert(self@ =~~= GameCoreView {
                        objectives: old(self)@.objectives.update(
                            i as int,
                            (
                                objective@,
                                ObjectiveView {
                                    data: sp_set_score(
                                        old(self)@.objectives[i as int].1.data,
                                        player@,
                                        score,
                                    ),
                                    ..old(self)@.objectives[i as int].1
                                },
                            ),
                        ),
                        ..old(self)@
                    });
                }
                let mut msg = String::from_str("Set [");
                msg.append(display.as_str());
                msg.append("] for ");
                msg.append(player.as_str());
                msg.append(" to ");
                let score_text = i32_string(score);
                msg.append(score_text.as_str());
                proof {
                    assert(msg@ =~= "Set ["@ + old(self)@.objectives[i as int].1.display_name
                        + "] for "@ + player@ + " to "@ + spec_i32_string(score as int));
                }
                self.log_push(Level::Info, msg);
            },
        }
    }

    #[verifier::rlimit(100)]
    fn do_players_operation(
        &mut self,
        player: &String,
        target_objective: &String,
        op: &OperationType,
        source_player: &String,
        source_objective: &String,
    )
        ensures
            final(self)@ == sp_exec_players_operation(
                old(self)@,
                player@,
                target_objective@,
                *op,
                source_player@,
                source_objective@,
            ),
    {
        let ti = match find_objective(&self.objectives, target_objective.as_str()) {
            None => {
                let msg = unknown_objective_message(target_objective);
                self.log_push(Level::Fail, msg);
                return ;
            },
            Some(ti) => ti,
        };
        let si = match find_objective(&self.objectives, source_objective.as_str()) {
            None => {
                let msg = unknown_objective_message(source_objective);
                self.log_push(Level::Fail, msg);
                return ;
            },
            Some(si) => si,
        };
        let s_score = get_score(&self.objectives[si].1.data, source_player.as_str());
        let divmod = *op == OperationType::Division || *op == OperationType::Modulus;
        if divmod && s_score == 0 {
            self.log_push(Level::Fail, String::from_str("Cannot divide by zero"));
            return ;
        }
        let t_score = get_score(&self.objectives[ti].1.data, player.as_str());
        let pair_values = apply_operation(op, t_score, s_score);
        let ghost before = self@;
        proof {
            lemma_assoc_index_props(before.objectives, target_objective@);
            lemma_assoc_index_props(before.objectives, source_objective@);
        }
        let mut tpair = self.objectives.remove(ti);
        set_score(&mut tpair.1.data, player.as_str(), pair_values.0);
        let ghost tpx = tpair;
        self.objectives.insert(ti, tpair);
        let ghost after_target = self@;
        proof {
            lemma_objs_update(old(self).objectives@, ti as int, tpx);
            assert(after_target.objectives =~~= before.objectives.update(
                ti as int,
                (
                    target_objective@,
                    ObjectiveView {
                        data: sp_set_score(
                            before.objectives[ti as int].1.data,
                            player@,
                            pair_values.0,
                        ),
                        ..before.objectives[ti as int].1
                    },
                ),
            ));
        }
        let ghost snapshot = self.objectives@;
        let mut spair = self.objectives.remove(si);
        set_score(&mut spair.1.data, source_player.as_str(), pair_values.1);
        let ghost spx = spair;
        self.objectives.insert(si, spair);
        proof {
            lemma_objs_update(snapshot, si as int, spx);
            assert(self@.objectives =~~= after_target.objectives.update(
                si as int,
                (
                    source_objective@,
                    ObjectiveView {
                        data: sp_set_score(
                            after_target.objectives[si as int].1.data,
                            source_player@,
                            pair_values.1,
                        ),
                        ..after_target.objectives[si as int].1
                    },
                ),
            ));
        }
        let now = get_score(&self.objectives[ti].1.data, player.as_str());
        let display = self.objectives[ti].1.display_name.clone();
        let mut msg = String::from_str("Set [");
        msg.append(display.as_str());
        msg.append("] for ");
        msg.append(player.as_str());
        msg.append(" to ");
        let now_text = i32_string(now);
        msg.append(now_text.as_str());
        proof {
            assert(msg@ =~= "Set ["@ + self@.objectives[ti as int].1.display_name + "] for "@
                + player@ + " to "@ + spec_i32_string(
                sp_get_score(self@.objectives[ti as int].1.data, player@) as int,
            ));
        }
        self.log_push(Level::Info, msg);
    }

    fn do_objectives(&mut self, o: &Objectives)
        ensures
            final(self)@ == sp_exec_objectives(old(self)@, o@),
    {
        match o {
            Objectives::Add(a) => self.do_objectives_add(a),
            Objectives::List => self.do_objectives_list(),
            Objectives::Modify(m) => match &m.modification {
                Modification::DisplayName(d) => self.do_modify_display_name(&m.objective, d),
                Modification::RenderType(rt) => self.do_modify_render_type(&m.objective, *rt),
            },
            Objectives::Remove(r) => self.do_objectives_remove(&r.objective),
            Objectives::SetDisplay(sd) => self.do_set_display(sd),
        }
    }

    fn do_players(&mut self, p: &Players)
        ensures
            final(self)@ == sp_exec_players(old(self)@, p@),
    {
        match p {
            Players::Add(a) => match &a.targets {
                Target::Name(player) => self.do_players_add(player, &a.objective, a.score, false),
                Target::Selector(_) => self.log_push(
                    Level::Fail,
                    String::from_str("Unsupported target"),
                ),
            },
            Players::Remove(r) => match &r.targets {
                Target::Name(player) => self.do_players_add(player, &r.objective, r.score, true),
                Target::Selector(_) => self.log_push(
                    Level::Fail,
                    String::from_str("Unsupported target"),
                ),
            },
            Players::SetScore(s) => match &s.targets {
                Target::Name(player) => self.do_players_set(player, &s.objective, s.score),
                Target::Selector(_) => self.log_push(
                    Level::Fail,
                    String::from_str("Unsupported target"),
                ),
            },
            Players::Operation(o) => match (&o.targets, &o.source) {
                (Target::Name(player), Target::Name(source_player)) => self.do_players_operation(
                    player,
                    &o.target_objective,
                    &o.operation,
                    source_player,
                    &o.source_objective,
                ),
                _ => self.log_push(Level::Fail, String::from_str("Unsupported target")),
            },
            _ => self.log_push(Level::Fail, String::from_str("Unsupported command")),
        }
    }
}

fn fid_matches(a: &FunctionIdentifier, b: &FunctionIdentifier) -> (r: bool)
    ensures
        r == (a@ == b@),
{
    let names_match = text_is(&a.name, b.name.as_str());
    let namespaces_match = match (&a.namespace, &b.namespace) {
        (None, None) => true,
        (Some(x), Some(y)) => text_is(x, y.as_str()),
        _ => false,
    };
    names_match && namespaces_match
}

fn find_function(functions: &Vec<Function>, f: &FunctionIdentifier) -> (r: Option<usize>)
    ensures
        match r {
            Some(i) => i < functions@.len() && fn_index(
                functions@.map_values(|g: Function| g@),
                f@,
            ) == i as int,
            None => fn_index(functions@.map_values(|g: Function| g@), f@) == -1,
        },
{
    let ghost v = functions@.map_values(|g: Function| g@);
    let mut i: usize = 0;
    while i < functions.len()
        invariant
            i <= functions@.len(),
            v == functions@.map_values(|g: Function| g@),
            forall|j: int| 0 <= j < i ==> (#[trigger] v[j]).identifier != f@,
        decreases functions@.len() - i,
    {
        if fid_matches(&functions[i].identifier, f) {
            proof {
                lemma_fn_index_at(v, f@, i as int);
            }
            return Some(i);
        }
        i += 1;
    }
    proof {
        lemma_fn_index_props(v, f@);
    }
    None
}

/// The failure message for a function that cannot be resolved.
fn unknown_function_message(f: &FunctionIdentifier) -> (r: String)
    ensures
        r@ == "Unknown function '"@ + sp_fid_text(f@) + "'"@,
{
    let mut m = String::from_str("Unknown function '");
    match &f.namespace {
        Some(ns) => {
            m.append(ns.as_str());
            m.append(":");
        },
        None => {},
    }
    m.append(f.name.as_str());
    m.append("'");
    proof {
        assert(m@ =~= "Unknown function '"@ + sp_fid_text(f@) + "'"@);
    }
    m
}

fn exec_command(core: &mut GameCore, dp: &Option<Datapack>, c: &Command, fuel: u32)
    ensures
        final(core)@ == sp_execute_cmd(old(core)@, view_datapack(*dp), c@, fuel as nat),
    decreases fuel, cmd_height(c@), 1int,
{
    match c {
        Command::Scoreboard(Scoreboard::Objectives(o)) => core.do_objectives(o),
        Command::Scoreboard(Scoreboard::Players(p)) => core.do_players(p),
        Command::Function(f) => {
            if fuel == 0 {
                core.log_push(
                    Level::Fail,
                    String::from_str("Function call depth limit exceeded"),
                );
            } else {
                match dp {
                    None => {
                        let msg = unknown_function_message(f);
                        core.log_push(Level::Fail, msg);
                    },
                    Some(d) => match find_function(&d.functions, f) {
                        Some(i) => {
                            exec_cmds(core, dp, &d.functions[i].commands, fuel - 1);
                        },
                        None => {
                            let msg = unknown_function_message(f);
                            core.log_push(Level::Fail, msg);
                        },
                    },
                }
            }
        },
        Command::Execute(Execute::If(If::Score(sv))) => match sv {
            Score::Matches(rc) => exec_matches(core, dp, rc, fuel),
            _ => core.log_push(Level::Fail, String::from_str("Unsupported command")),
        },
        Command::Tellraw(t) => {
            let no_players: Vec<String> = Vec::new();
            proof {
                assert(no_players@.map_values(|p: String| p@) =~= Seq::<Seq<char>>::empty());
            }
            core.chat_push(no_players, t.message.clone());
        },
    }
}

fn exec_matches(core: &mut GameCore, dp: &Option<Datapack>, rc: &RangeComparison, fuel: u32)
    ensures
        final(core)@ == sp_exec_matches(old(core)@, view_datapack(*dp), rc@, fuel as nat),
    decreases fuel, cmd_height(
        CommandView::Execute(ExecuteView::If(IfView::Score(ScoreView::Matches(rc@)))),
    ), 0int,
{
    match &rc.target {
        Target::Selector(_) => core.log_push(Level::Fail, String::from_str("Unsupported target")),
        Target::Name(player) => {
            match find_objective(&core.objectives, rc.target_objective.as_str()) {
                None => {
                    let msg = unknown_objective_message(&rc.target_objective);
                    core.log_push(Level::Fail, msg);
                },
                Some(i) => {
                    match find_data(&core.objectives[i].1.data, player.as_str()) {
                        Some(j) => {
                            let v = core.objectives[i].1.data[j].1;
                            if matches_interval(v, &rc.interval) {
                                exec_command(core, dp, &rc.command, fuel);
                            }
                        },
                        None => {},
                    }
                },
            }
        },
    }
}

fn exec_cmds(core: &mut GameCore, dp: &Option<Datapack>, cmds: &Vec<Command>, fuel: u32)
    ensures
        final(core)@ == sp_execute_cmds(
            old(core)@,
            view_datapack(*dp),
            crate::view_commands(cmds@),
            fuel as nat,
        ),
    decreases fuel, cmds_height(crate::view_commands(cmds@)), 0int,
{
    let ghost cv = crate::view_commands(cmds@);
    let ghost dpv = view_datapack(*dp);
    let ghost entry = core@;
    proof {
        assert(cv.skip(0) =~= cv);
    }
    let mut i: usize = 0;
    while i < cmds.len()
        invariant
            i <= cmds@.len(),
            cv == crate::view_commands(cmds@),
            dpv == view_datapack(*dp),
            sp_execute_cmds(entry, dpv, cv, fuel as nat) == sp_execute_cmds(
                core@,
                dpv,
                cv.skip(i as int),
                fuel as nat,
            ),
        decreases cmds@.len() - i,
    {
        proof {
            lemma_cmds_height_elem(cv, i as int);
            assert(cv.skip(i as int).drop_first() =~= cv.skip(i + 1));
            assert(cv.skip(i as int)[0] == cv[i as int]);
        }
        exec_command(core, dp, &cmds[i], fuel);
        i += 1;
    }
    proof {
        assert(cv.skip(cmds@.len() as int) =~= Seq::<CommandView>::empty());
    }
}

impl Game {
    /// A fresh game with no state and no datapack.
    pub fn new() -> (g: Game)
        ensures
            g@.core == initial_core(),
            g@.datapack is None,
    {
        let g = Game {
            core: GameCore {
                objectives: Vec::new(),
                displays: Displays { below_name: None, list: None, sidebar: None },
                players: Vec::new(),
                log: Vec::new(),
                chat: Vec::new(),
            },
            datapack: None,
        };
        proof {
            assert(g@.core =~~= initial_core());
        }
        g
    }

    /// A fresh game that can resolve `function` commands against the given
    /// datapack.
    pub fn from(datapack: Option<Datapack>) -> (g: Game)
        ensures
            g@.core == initial_core(),
            g@.datapack == view_datapack(datapack),
    {
        let g = Game {
            core: GameCore {
                objectives: Vec::new(),
                displays: Displays { below_name: None, list: None, sidebar: None },
                players: Vec::new(),
                log: Vec::new(),
                chat: Vec::new(),
            },
            datapack,
        };
        proof {
            assert(g@.core =~~= initial_core());
        }
        g
    }

    /// Registers a player; registering the same name again changes nothing.
    pub fn add_player(&mut self, name: &str)
        ensures
            final(self)@.core == (GameCoreView {
                players: if old(self)@.core.players.contains(name@) {
                    old(self)@.core.players
                } else {
                    old(self)@.core.players.push(name@)
                },
                ..old(self)@.core
            }),
            final(self)@.datapack == old(self)@.datapack,
    {
        let ghost v = self@.core.players;
        let mut i: usize = 0;
        let n = self.core.players.len();
        while i < n
            invariant
                i <= n,
                n == self.core.players@.len(),
                v == self@.core.players,
                v == self.core.players@.map_values(|p: Player| (p.name@)),
                forall|j: int| 0 <= j < i ==> #[trigger] v[j] != name@,
            decreases n - i,
        {
            if text_is(&self.core.players[i].name, name) {
                proof {
                    assert(v[i as int] == name@);
                    assert(v.contains(name@));
                    assert(self@.core =~~= GameCoreView { players: v, ..old(self)@.core });
                }
                return ;
            }
            i += 1;
        }
        proof {
            assert(!v.contains(name@));
        }
        self.core.players.push(Player { name: String::from_str(name) });
        proof {
            assert(self@.core.players =~~= v.push(name@));
            assert(self@.core =~~= GameCoreView { players: v.push(name@), ..old(self)@.core });
        }
    }

    /// Runs one command against the game, recording every outcome in the
    /// log and chat buffers. `function` invocations may nest up to
    /// [`MAX_CALL_DEPTH`] deep.
    pub fn execute(&mut self, command: &Command)
        ensures
            final(self)@.core == sp_execute_cmd(
                old(self)@.core,
                old(self)@.datapack,
                command@,
                MAX_CALL_DEPTH as nat,
            ),
            final(self)@.datapack == old(self)@.datapack,
    {
        exec_command(&mut self.core, &self.datapack, command, MAX_CALL_DEPTH);
    }

    /// Whether an objective with this name exists.
    pub fn has_objective(&self, name: &str) -> (r: bool)
        ensures
            r == (assoc_index(self@.core.objectives, name@) >= 0),
    {
        match find_objective(&self.core.objectives, name) {
            Some(_) => true,
            None => false,
        }
    }

    /// The display name of an objective, if it exists.
    pub fn objective_display_name(&self, name: &str) -> (r: Option<String>)
        ensures
            match r {
                Some(d) => assoc_index(self@.core.objectives, name@) >= 0 && d@
                    == self@.core.objectives[assoc_index(self@.core.objectives, name@)].1
                    .display_name,
                None => assoc_index(self@.core.objectives, name@) == -1,
            },
    {
        match find_objective(&self.core.objectives, name) {
            Some(i) => Some(self.core.objectives[i].1.display_name.clone()),
            None => None,
        }
    }

    /// The render type of an objective, if it exists.
    pub fn objective_render_type(&self, name: &str) -> (r: Option<RenderType>)
        ensures
            match r {
                Some(rt) => assoc_index(self@.core.objectives, name@) >= 0 && rt
                    == self@.core.objectives[assoc_index(self@.core.objectives, name@)].1
                    .render_type,
                None => assoc_index(self@.core.objectives, name@) == -1,
            },
    {
        match find_objective(&self.core.objectives, name) {
            Some(i) => Some(self.core.objectives[i].1.render_type),
            None => None,
        }
    }

    /// A player's recorded score under an objective: `None` when the
    /// objective does not exist or the player has no entry in it.
    pub fn score(&self, player: &str, objective: &str) -> (r: Option<i32>)
        ensures
            match r {
                Some(v) => {
                    let i = assoc_index(self@.core.objectives, objective@);
                    &&& i >= 0
                    &&& assoc_index(self@.core.objectives[i].1.data, player@) >= 0
                    &&& v == self@.core.objectives[i].1.data[assoc_index(
                        self@.core.objectives[i].1.data,
                        player@,
                    )].1
                },
                None => {
                    let i = assoc_index(self@.core.objectives, objective@);
                    i == -1 || assoc_index(self@.core.objectives[i].1.data, player@) == -1
                },
            },
    {
        match find_objective(&self.core.objectives, objective) {
            None => None,
            Some(i) => match find_data(&self.core.objectives[i].1.data, player) {
                Some(j) => Some(self.core.objectives[i].1.data[j].1),
                None => None,
            },
        }
    }

    /// The objective a display slot currently shows, if any.
    pub fn display_slot(&self, slot: DisplaySlot) -> (r: Option<String>)
        ensures
            match r {
                Some(name) => sp_slot_value(self@.core.displays, slot) == Some(name@),
                None => sp_slot_value(self@.core.displays, slot) is None,
            },
    {
        let current = match slot {
            DisplaySlot::BelowName => &self.core.displays.below_name,
            DisplaySlot::List => &self.core.displays.list,
            DisplaySlot::Sidebar => &self.core.displays.sidebar,
        };
        match current {
            Some(name) => Some(name.clone()),
            None => None,
        }
    }

    /// Whether a player has been registered.
    pub fn has_player(&self, name: &str) -> (r: bool)
        ensures
            r == self@.core.players.contains(name@),
    {
        let ghost v = self@.core.players;
        let mut i: usize = 0;
        let n = self.core.players.len();
        while i < n
            invariant
                i <= n,
                n == self.core.players@.len(),
                v == self@.core.players,
                v == self.core.players@.map_values(|p: Player| (p.name@)),
                forall|j: int| 0 <= j < i ==> #[trigger] v[j] != name@,
            decreases n - i,
        {
            if text_is(&self.core.players[i].name, name) {
                proof {
                    assert(v[i as int] == name@);
                    assert(v.contains(name@));
                }
                return true;
            }
            i += 1;
        }
        proof {
            assert(!v.contains(name@));
        }
        false
    }

    /// How many log lines have been recorded.
    pub fn log_len(&self) -> (r: usize)
        ensures
            r == self@.core.log.len(),
    {
        self.core.log.len()
    }

    /// The `i`th recorded log line.
    pub fn log_at(&self, i: usize) -> (r: &LogEntry)
        requires
            i < self@.core.log.len(),
        ensures
            r@ == self@.core.log[i as int],
    {
        &self.core.log[i]
    }

    /// How many chat events have been recorded.
    pub fn chat_len(&self) -> (r: usize)
        ensures
            r == self@.core.chat.len(),
    {
        self.core.chat.len()
    }

    /// The `i`th recorded chat event.
    pub fn chat_at(&self, i: usize) -> (r: &ChatEvent)
        requires
            i < self@.core.chat.len(),
        ensures
            r@ == self@.core.chat[i as int],
    {
        &self.core.chat[i]
    }
}

// ---------------------------------------------------------------------------
// Laws of the interpreter.
// ---------------------------------------------------------------------------

/// Writing a score and reading it back yields the written value.
pub proof fn lemma_get_set_score(data: Seq<(Seq<char>, i32)>, player: Seq<char>, v: i32)
    ensures
        sp_get_score(sp_set_score(data, player, v), player) == v,
{
    let i = assoc_index(data, player);
    lemma_assoc_index_props(data, player);
    if i >= 0 {
        let updated = data.update(i, (player, v));
        lemma_assoc_index_at(updated, player, i);
    } else {
        let pushed = data.push((player, v));
        lemma_assoc_index_at(pushed, player, data.len() as int);
    }
}

/// Updating an entry in place, keeping its key, leaves every lookup index
/// unchanged.
proof fn lemma_assoc_index_update<T>(s: Seq<(Seq<char>, T)>, i: int, x: T, k: Seq<char>)
    requires
        0 <= i < s.len(),
    ensures
        assoc_index(s.update(i, (s[i].0, x)), k) == assoc_index(s, k),
    decreases s.len(),
{
    let updated = s.update(i, (s[i].0, x));
    if i == 0 {
        if s[0].0 != k {
            assert(updated.drop_first() =~= s.drop_first());
        }
    } else {
        if s[0].0 != k {
            assert(updated.drop_first() =~= s.drop_first().update(i - 1, (s[i].0, x)));
            assert(s.drop_first()[i - 1] == s[i]);
            lemma_assoc_index_update(s.drop_first(), i - 1, x, k);
        }
    }
}

/// Modifying an objective's display name to the name it already carries is
/// a no-op, so issuing the same `displayname` modification twice changes
/// nothing — in particular, the second run adds no log entries.
pub proof fn lemma_modify_display_name_idempotent(
    core: GameCoreView,
    objective: Seq<char>,
    new_name: Seq<char>,
)
    requires
        assoc_index(core.objectives, objective) >= 0,
    ensures
        sp_exec_modify_display_name(
            sp_exec_modify_display_name(core, objective, new_name),
            objective,
            new_name,
        ) == sp_exec_modify_display_name(core, objective, new_name),
{
    let i = assoc_index(core.objectives, objective);
    lemma_assoc_index_props(core.objectives, objective);
    if core.objectives[i].1.display_name == new_name {
    } else {
        let once = sp_exec_modify_display_name(core, objective, new_name);
        assert(once.objectives == core.objectives.update(
            i,
            (objective, ObjectiveView { display_name: new_name, ..core.objectives[i].1 }),
        ));
        assert(core.objectives.update(
            i,
            (objective, ObjectiveView { display_name: new_name, ..core.objectives[i].1 }),
        ) == core.objectives.update(
            i,
            (
                core.objectives[i].0,
                ObjectiveView { display_name: new_name, ..core.objectives[i].1 },
            ),
        ));
        lemma_assoc_index_update(
            core.objectives,
            i,
            ObjectiveView { display_name: new_name, ..core.objectives[i].1 },
            objective,
        );
        assert(assoc_index(once.objectives, objective) == i);
        assert(once.objectives[i].1.display_name == new_name);
    }
}

/// Modifying an objective's render type to the type it already carries is a
/// no-op, so issuing the same `rendertype` modification twice changes
/// nothing — in particular, the second run adds no log entries.
pub proof fn lemma_modify_render_type_idempotent(
    core: GameCoreView,
    objective: Seq<char>,
    new_render: RenderType,
)
    requires
        assoc_index(core.objectives, objective) >= 0,
    ensures
        sp_exec_modify_render_type(
            sp_exec_modify_render_type(core, objective, new_render),
            objective,
            new_render,
        ) == sp_exec_modify_render_type(core, objective, new_render),
{
    let i = assoc_index(core.objectives, objective);
    lemma_assoc_index_props(core.objectives, objective);
    if core.objectives[i].1.render_type == new_render {
    } else {
        let once = sp_exec_modify_render_type(core, objective, new_render);
        assert(core.objectives.update(
            i,
            (objective, ObjectiveView { render_type: new_render, ..core.objectives[i].1 }),
        ) == core.objectives.update(
            i,
            (
                core.objectives[i].0,
                ObjectiveView { render_type: new_render, ..core.objectives[i].1 },
            ),
        ));
        lemma_assoc_index_update(
            core.objectives,
            i,
            ObjectiveView { render_type: new_render, ..core.objectives[i].1 },
            objective,
        );
        assert(assoc_index(once.objectives, objective) == i);
        assert(once.objectives[i].1.render_type == new_render);
    }
}

/// Adding an objective under a name that already exists never touches the
/// existing entry — or any other state — and logs exactly one failure.
pub proof fn lemma_objectives_add_existing(
    core: GameCoreView,
    objective: Seq<char>,
    display_name: Option<Seq<char>>,
)
    requires
        assoc_index(core.objectives, objective) >= 0,
    ensures
        ({
            let r = sp_exec_objectives_add(core, objective, display_name);
            &&& r.objectives == core.objectives
            &&& r.displays == core.displays
            &&& r.players == core.players
            &&& r.chat == core.chat
            &&& r.log == core.log.push(
                LogEntryView {
                    level: Level::Fail,
                    message: "An objective already exists by that name"@,
                },
            )
        }),
{
}

/// `players add` and `players remove` on an existing objective never fail:
/// they store the wrapping sum (or difference) of the stored score and the
/// operand, and log exactly one informational line.
pub proof fn lemma_players_add_wraps(
    core: GameCoreView,
    player: Seq<char>,
    objective: Seq<char>,
    score: i32,
    removing: bool,
)
    requires
        assoc_index(core.objectives, objective) >= 0,
    ensures
        ({
            let i = assoc_index(core.objectives, objective);
            let r = sp_exec_players_add(core, player, objective, score, removing);
            let prev = sp_get_score(core.objectives[i].1.data, player);
            let now = if removing {
                prev.wrapping_sub(score)
            } else {
                prev.wrapping_add(score)
            };
            &&& sp_get_score(r.objectives[i].1.data, player) == now
            &&& r.log.len() == core.log.len() + 1
            &&& r.log.last().level == Level::Info
        }),
{
    let i = assoc_index(core.objectives, objective);
    lemma_assoc_index_props(core.objectives, objective);
    let obj = core.objectives[i].1;
    let prev = sp_get_score(obj.data, player);
    let now = if removing {
        prev.wrapping_sub(score)
    } else {
        prev.wrapping_add(score)
    };
    lemma_get_set_score(obj.data, player, now);
    let r = sp_exec_players_add(core, player, objective, score, removing);
    assert(r.objectives[i].1.data == sp_set_score(obj.data, player, now));
}

} // verus!
