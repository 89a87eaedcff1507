//! Round trip: parsing the canonical text of a command yields the command.
//!
//! [`lemma_parse_line_round_trip`] states the law: for every well-formed
//! command value (names non-empty and made of identifier characters, quoted
//! texts free of `"`, counted scores non-negative, and no `tellraw`, whose
//! form the line grammar does not cover), lowering and then parsing returns
//! exactly the original command.

use vstd::prelude::*;

use crate::lower::{
    spec_lower_command, spec_lower_display_slot, spec_lower_interval, spec_lower_operation,
    spec_lower_selector, spec_lower_target,
};
use crate::numbers::{
    lemma_nat_string_val, lemma_parse_signed_i32_string, spec_i32_string,
};
use crate::parse::{
    digits_pred, ident_pred, lemma_sp_take_concat, not_char_pred, sp_command, sp_comparison,
    sp_criteria, sp_function_identifier, sp_identifier, sp_interval, sp_modification,
    sp_objectives, sp_objectives_add, sp_operation_type, sp_operator, sp_players,
    sp_positive_integer, sp_range_comparison, sp_score, sp_scoreboard, sp_signed_integer,
    sp_source_comparison, sp_space, sp_string, sp_target, spec_parse_line, Error,
};
use crate::text::{is_ascii_digit, is_identifier_char};
use crate::{
    CommandView, Criteria, DisplaySlot, ExecuteView, FunctionIdentifierView, IfView, Interval,
    ModificationView, ObjectivesAddView, ObjectivesView, OperationType, PlayersView,
    RangeComparisonView, RenderType, ScoreView, ScoreboardView, Selector, SelectorVariable,
    SourceComparisonView, TargetView,
};

verus! {

// ---------------------------------------------------------------------------
// Which command values the line grammar can express.
// ---------------------------------------------------------------------------

/// Every character of `s` may appear in an identifier.
pub open spec fn ident_text(s: Seq<char>) -> bool {
    forall|i: int| 0 <= i < s.len() ==> is_identifier_char(#[trigger] s[i])
}

/// A usable objective, player or function name: non-empty, identifier
/// characters only.
pub open spec fn valid_name(s: Seq<char>) -> bool {
    s.len() > 0 && ident_text(s)
}

/// A quoted text: anything without a double quote.
pub open spec fn valid_quoted(s: Seq<char>) -> bool {
    forall|i: int| 0 <= i < s.len() ==> #[trigger] s[i] != '"'
}

pub open spec fn valid_target(t: TargetView) -> bool {
    match t {
        TargetView::Name(n) => valid_name(n),
        TargetView::Selector(_) => true,
    }
}

pub open spec fn valid_objectives(o: ObjectivesView) -> bool {
    match o {
        ObjectivesView::Add(a) => valid_name(a.objective) && match a.display_name {
            Some(d) => valid_quoted(d),
            None => true,
        },
        ObjectivesView::List => true,
        ObjectivesView::Modify(m) => valid_name(m.objective) && match m.modification {
            ModificationView::DisplayName(d) => valid_quoted(d),
            ModificationView::RenderType(_) => true,
        },
        ObjectivesView::Remove(r) => valid_name(r.objective),
        ObjectivesView::SetDisplay(sd) => valid_name(sd.objective),
    }
}

pub open spec fn valid_players(p: PlayersView) -> bool {
    match p {
        PlayersView::Add(a) => valid_target(a.targets) && valid_name(a.objective) && a.score >= 0,
        PlayersView::Enable(e) => valid_target(e.targets) && valid_name(e.objective),
        PlayersView::Get(g) => valid_target(g.target) && valid_name(g.objective),
        PlayersView::List(l) => match l.target {
            Some(t) => valid_target(t),
            None => true,
        },
        PlayersView::Operation(o) => valid_target(o.targets) && valid_name(o.target_objective)
            && valid_target(o.source) && valid_name(o.source_objective),
        PlayersView::Remove(r) => valid_target(r.targets) && valid_name(r.objective) && r.score
            >= 0,
        PlayersView::Reset(r) => valid_target(r.targets) && valid_name(r.objective),
        PlayersView::SetScore(s) => valid_target(s.targets) && valid_name(s.objective),
    }
}

pub open spec fn valid_function_identifier(f: FunctionIdentifierView) -> bool {
    valid_name(f.name) && match f.namespace {
        Some(ns) => valid_name(ns),
        None => true,
    }
}

pub open spec fn valid_score(sv: ScoreView) -> bool
    decreases sv,
{
    match sv {
        ScoreView::Less(sc) => valid_source_comparison(sc),
        ScoreView::LessEqual(sc) => valid_source_comparison(sc),
        ScoreView::Greater(sc) => valid_source_comparison(sc),
        ScoreView::GreaterEqual(sc) => valid_source_comparison(sc),
        ScoreView::Equal(sc) => valid_source_comparison(sc),
        ScoreView::Matches(rc) => valid_range_comparison(rc),
    }
}

pub open spec fn valid_source_comparison(sc: SourceComparisonView) -> bool
    decreases sc,
{
    valid_target(sc.target) && valid_name(sc.target_objective) && valid_target(sc.source)
        && valid_name(sc.source_objective) && valid_command(*sc.command)
}

pub open spec fn valid_range_comparison(rc: RangeComparisonView) -> bool
    decreases rc,
{
    valid_target(rc.target) && valid_name(rc.target_objective) && valid_command(*rc.command)
}

/// Whether the line grammar can express this command value: every name and
/// quoted text is usable, counted scores are non-negative, and the command
/// holds no `tellraw`, whose form has no production.
pub open spec fn valid_command(c: CommandView) -> bool
    decreases c,
{
    match c {
        CommandView::Scoreboard(ScoreboardView::Objectives(o)) => valid_objectives(o),
        CommandView::Scoreboard(ScoreboardView::Players(p)) => valid_players(p),
        CommandView::Function(f) => valid_function_identifier(f),
        CommandView::Execute(ExecuteView::If(IfView::Score(sv))) => valid_score(sv),
        CommandView::Tellraw(_) => false,
    }
}

// ---------------------------------------------------------------------------
// The lowered text, regrouped token by token.
// ---------------------------------------------------------------------------

pub open spec fn tail_display_suffix(d: Option<Seq<char>>) -> Seq<char> {
    match d {
        Some(x) => " "@ + "\""@ + x + "\""@,
        None => Seq::empty(),
    }
}

pub open spec fn tail_objectives_add(a: ObjectivesAddView) -> Seq<char> {
    a.objective + " "@ + "dummy"@ + tail_display_suffix(a.display_name)
}

pub open spec fn tail_modification(m: ModificationView) -> Seq<char> {
    match m {
        ModificationView::DisplayName(d) => "displayname"@ + " "@ + "\""@ + d + "\""@,
        ModificationView::RenderType(RenderType::Hearts) => "rendertype"@ + " "@ + "hearts"@,
        ModificationView::RenderType(RenderType::Integer) => "rendertype"@ + " "@ + "integer"@,
    }
}

pub open spec fn tail_objectives(o: ObjectivesView) -> Seq<char> {
    match o {
        ObjectivesView::Add(a) => "add"@ + " "@ + tail_objectives_add(a),
        ObjectivesView::List => "list"@,
        ObjectivesView::Modify(m) => "modify"@ + " "@ + m.objective + " "@ + tail_modification(
            m.modification,
        ),
        ObjectivesView::Remove(r) => "remove"@ + " "@ + r.objective,
        ObjectivesView::SetDisplay(sd) => "setdisplay"@ + " "@ + spec_lower_display_slot(sd.slot)
            + " "@ + sd.objective,
    }
}

pub open spec fn tail_players(p: PlayersView) -> Seq<char> {
    match p {
        PlayersView::Add(a) => "add"@ + " "@ + spec_lower_target(a.targets) + " "@ + a.objective
            + " "@ + spec_i32_string(a.score as int),
        PlayersView::Enable(e) => "enable"@ + " "@ + spec_lower_target(e.targets) + " "@
            + e.objective,
        PlayersView::Get(g) => "get"@ + " "@ + spec_lower_target(g.target) + " "@ + g.objective,
        PlayersView::List(l) => match l.target {
            Some(t) => "list"@ + " "@ + spec_lower_target(t),
            None => "list"@,
        },
        PlayersView::Operation(o) => "operation"@ + " "@ + spec_lower_target(o.targets) + " "@
            + o.target_objective + " "@ + spec_lower_operation(o.operation) + " "@
            + spec_lower_target(o.source) + " "@ + o.source_objective,
        PlayersView::Remove(r) => "remove"@ + " "@ + spec_lower_target(r.targets) + " "@
            + r.objective + " "@ + spec_i32_string(r.score as int),
        PlayersView::Reset(r) => "reset"@ + " "@ + spec_lower_target(r.targets) + " "@
            + r.objective,
        PlayersView::SetScore(s) => "set"@ + " "@ + spec_lower_target(s.targets) + " "@
            + s.objective + " "@ + spec_i32_string(s.score as int),
    }
}

pub open spec fn tail_scoreboard(s: ScoreboardView) -> Seq<char> {
    match s {
        ScoreboardView::Objectives(o) => "objectives"@ + " "@ + tail_objectives(o),
        ScoreboardView::Players(p) => "players"@ + " "@ + tail_players(p),
    }
}

pub open spec fn tail_function_identifier(f: FunctionIdentifierView) -> Seq<char> {
    match f.namespace {
        Some(ns) => ns + ":"@ + f.name,
        None => f.name,
    }
}

pub open spec fn tail_source_comparison(sc: SourceComparisonView) -> Seq<char> {
    spec_lower_target(sc.source) + " "@ + sc.source_objective + " "@ + "run"@ + " "@
        + spec_lower_command(*sc.command)
}

pub open spec fn tail_range_comparison(rc: RangeComparisonView) -> Seq<char> {
    spec_lower_interval(rc.interval) + " "@ + "run"@ + " "@ + spec_lower_command(*rc.command)
}

pub open spec fn tail_comparison(sv: ScoreView) -> Seq<char> {
    match sv {
        ScoreView::Less(sc) => "<"@ + " "@ + tail_source_comparison(sc),
        ScoreView::LessEqual(sc) => "<="@ + " "@ + tail_source_comparison(sc),
        ScoreView::Greater(sc) => ">"@ + " "@ + tail_source_comparison(sc),
        ScoreView::GreaterEqual(sc) => ">="@ + " "@ + tail_source_comparison(sc),
        ScoreView::Equal(sc) => "="@ + " "@ + tail_source_comparison(sc),
        ScoreView::Matches(rc) => "matches"@ + " "@ + tail_range_comparison(rc),
    }
}

pub open spec fn score_parts(sv: ScoreView) -> (TargetView, Seq<char>) {
    match sv {
        ScoreView::Less(sc) => (sc.target, sc.target_objective),
        ScoreView::LessEqual(sc) => (sc.target, sc.target_objective),
        ScoreView::Greater(sc) => (sc.target, sc.target_objective),
        ScoreView::GreaterEqual(sc) => (sc.target, sc.target_objective),
        ScoreView::Equal(sc) => (sc.target, sc.target_objective),
        ScoreView::Matches(rc) => (rc.target, rc.target_objective),
    }
}

pub open spec fn tail_score(sv: ScoreView) -> Seq<char> {
    spec_lower_target(score_parts(sv).0) + " "@ + score_parts(sv).1 + " "@ + tail_comparison(sv)
}

pub open spec fn tail_command(c: CommandView) -> Seq<char> {
    match c {
        CommandView::Scoreboard(s) => "scoreboard"@ + " "@ + tail_scoreboard(s),
        CommandView::Function(f) => "function"@ + " "@ + tail_function_identifier(f),
        CommandView::Execute(ExecuteView::If(IfView::Score(sv))) => "execute"@ + " "@ + "if"@
            + " "@ + "score"@ + " "@ + tail_score(sv),
        CommandView::Tellraw(_) => spec_lower_command(c),
    }
}

// ---------------------------------------------------------------------------
// Token-level helpers.
// ---------------------------------------------------------------------------

proof fn lemma_ident_split(w: Seq<char>, rest: Seq<char>)
    requires
        ident_text(w),
        rest.len() > 0 ==> !is_identifier_char(rest[0]),
    ensures
        sp_identifier(w + rest) == (w, rest),
{
    assert(forall|i: int| 0 <= i < w.len() ==> ident_pred()(#[trigger] w[i]));
    if rest.len() > 0 {
        assert(!ident_pred()(rest[0]));
    }
    lemma_sp_take_concat(w, rest, ident_pred());
}

proof fn lemma_space_split(rest: Seq<char>)
    ensures
        sp_space(" "@ + rest) == Ok::<Seq<char>, Error>(rest),
{
    reveal_strlit(" ");
    assert((" "@ + rest)[0] == ' ');
    assert((" "@ + rest).drop_first() =~= rest);
}

proof fn lemma_signed_split(n: i32, rest: Seq<char>)
    requires
        rest.len() > 0 ==> !(is_ascii_digit(rest[0]) || rest[0] == '-'),
    ensures
        sp_signed_integer(spec_i32_string(n as int) + rest) == Ok::<(i32, Seq<char>), Error>(
            (n, rest),
        ),
{
    let w = spec_i32_string(n as int);
    lemma_nat_string_val(if n < 0 {
        (-(n as int)) as nat
    } else {
        n as nat
    });
    assert(forall|i: int| 0 <= i < w.len() ==> digits_pred(true)(#[trigger] w[i]));
    if rest.len() > 0 {
        assert(!digits_pred(true)(rest[0]));
    }
    lemma_sp_take_concat(w, rest, digits_pred(true));
    lemma_parse_signed_i32_string(n);
}

proof fn lemma_positive_split(n: i32, rest: Seq<char>)
    requires
        n >= 0,
        rest.len() > 0 ==> !is_ascii_digit(rest[0]),
    ensures
        sp_positive_integer(spec_i32_string(n as int) + rest) == Ok::<(i32, Seq<char>), Error>(
            (n, rest),
        ),
{
    let w = spec_i32_string(n as int);
    lemma_nat_string_val(n as nat);
    assert(forall|i: int| 0 <= i < w.len() ==> digits_pred(false)(#[trigger] w[i]));
    if rest.len() > 0 {
        assert(!digits_pred(false)(rest[0]));
    }
    lemma_sp_take_concat(w, rest, digits_pred(false));
}

proof fn lemma_quoted_split(d: Seq<char>, rest: Seq<char>)
    requires
        valid_quoted(d),
    ensures
        sp_string("\""@ + d + "\""@ + rest) == Ok::<(Seq<char>, Seq<char>), Error>((d, rest)),
{
    reveal_strlit("\"");
    let s = "\""@ + d + "\""@ + rest;
    assert(s[0] == '"');
    let s1 = s.drop_first();
    assert(s1 =~= d + ("\""@ + rest));
    assert(forall|i: int| 0 <= i < d.len() ==> not_char_pred('"')(#[trigger] d[i]));
    assert(("\""@ + rest)[0] == '"');
    assert(!not_char_pred('"')(("\""@ + rest)[0]));
    lemma_sp_take_concat(d, "\""@ + rest, not_char_pred('"'));
    assert(("\""@ + rest).drop_first() =~= rest);
}

proof fn lemma_target_split(t: TargetView, rest: Seq<char>)
    requires
        valid_target(t),
        rest.len() > 0 ==> !is_identifier_char(rest[0]),
    ensures
        sp_target(spec_lower_target(t) + rest) == Ok::<(TargetView, Seq<char>), Error>((t, rest)),
{
    match t {
        TargetView::Name(n) => {
            assert(is_identifier_char(n[0]));
            assert(n[0] != '@');
            assert((n + rest)[0] == n[0]);
            lemma_ident_split(n, rest);
        },
        TargetView::Selector(sel) => {
            reveal_strlit("@p");
            reveal_strlit("@r");
            reveal_strlit("@a");
            reveal_strlit("@e");
            reveal_strlit("@s");
            reveal_strlit("p");
            reveal_strlit("r");
            reveal_strlit("a");
            reveal_strlit("e");
            reveal_strlit("s");
            let s = spec_lower_selector(sel) + rest;
            assert(s[0] == '@');
            match sel.variable {
                SelectorVariable::P => {
                    assert(s.drop_first() =~= "p"@ + rest);
                    assert(ident_text("p"@));
                    lemma_ident_split("p"@, rest);
                },
                SelectorVariable::R => {
                    assert(s.drop_first() =~= "r"@ + rest);
                    assert(ident_text("r"@));
                    lemma_ident_split("r"@, rest);
                },
                SelectorVariable::A => {
                    assert(s.drop_first() =~= "a"@ + rest);
                    assert(ident_text("a"@));
                    lemma_ident_split("a"@, rest);
                },
                SelectorVariable::E => {
                    assert(s.drop_first() =~= "e"@ + rest);
                    assert(ident_text("e"@));
                    lemma_ident_split("e"@, rest);
                },
                SelectorVariable::S => {
                    assert(s.drop_first() =~= "s"@ + rest);
                    assert(ident_text("s"@));
                    lemma_ident_split("s"@, rest);
                },
            }
        },
    }
}

proof fn lemma_i32_first_char(n: i32)
    ensures
        spec_i32_string(n as int).len() > 0,
        is_ascii_digit(spec_i32_string(n as int)[0]) || spec_i32_string(n as int)[0] == '-',
{
    if n < 0 {
        lemma_nat_string_val((-(n as int)) as nat);
        assert(spec_i32_string(n as int)[0] == '-');
    } else {
        lemma_nat_string_val(n as nat);
    }
}

proof fn lemma_interval_split(iv: Interval, rest: Seq<char>)
    requires
        rest.len() > 0,
        rest[0] == ' ',
    ensures
        sp_interval(spec_lower_interval(iv) + rest) == Ok::<(Interval, Seq<char>), Error>(
            (iv, rest),
        ),
{
    reveal_strlit("..");
    reveal_strlit(".");
    match iv {
        Interval::Value(v) => {
            let s = spec_i32_string(v as int) + rest;
            lemma_i32_first_char(v);
            assert(s[0] == spec_i32_string(v as int)[0]);
            assert(s[0] != '.');
            lemma_signed_split(v, rest);
        },
        Interval::Bounded(a, b) => {
            let btext = spec_i32_string(b as int);
            let s = (spec_i32_string(a as int) + ".."@ + btext) + rest;
            assert(s =~= spec_i32_string(a as int) + (".."@ + btext + rest));
            lemma_i32_first_char(a);
            assert(s[0] != '.');
            let mid = ".."@ + btext + rest;
            assert(mid[0] == '.');
            lemma_signed_split(a, mid);
            let s2 = mid.drop_first();
            assert(s2 =~= "."@ + (btext + rest));
            assert(s2[0] == '.');
            let s3 = s2.drop_first();
            assert(s3 =~= btext + rest);
            lemma_i32_first_char(b);
            assert(s3[0] == btext[0]);
            lemma_signed_split(b, rest);
        },
        Interval::LeftUnbounded(b) => {
            let btext = spec_i32_string(b as int);
            let s = (".."@ + btext) + rest;
            assert(s =~= ".."@ + (btext + rest));
            assert(s[0] == '.');
            let s1 = s.drop_first();
            assert(s1 =~= "."@ + (btext + rest));
            assert(s1[0] == '.');
            let s2 = s1.drop_first();
            assert(s2 =~= btext + rest);
            lemma_signed_split(b, rest);
        },
        Interval::RightUnbounded(a) => {
            let s = (spec_i32_string(a as int) + ".."@) + rest;
            assert(s =~= spec_i32_string(a as int) + (".."@ + rest));
            lemma_i32_first_char(a);
            assert(s[0] != '.');
            let mid = ".."@ + rest;
            assert(mid[0] == '.');
            lemma_signed_split(a, mid);
            let s1 = mid.drop_first();
            assert(s1 =~= "."@ + rest);
            assert(s1[0] == '.');
            let s2 = s1.drop_first();
            assert(s2 =~= rest);
            assert(rest[0] == ' ');
            assert(!(is_ascii_digit(rest[0]) || rest[0] == '-'));
        },
    }
}

// ---------------------------------------------------------------------------
// Production-level round trips, each on the exact remaining text.
// ---------------------------------------------------------------------------

proof fn rt_criteria(d: Option<Seq<char>>)
    ensures
        sp_criteria("dummy"@ + tail_display_suffix(d)) == Ok::<(Criteria, Seq<char>), Error>(
            (Criteria::Dummy, tail_display_suffix(d)),
        ),
{
    reveal_strlit("dummy");
    reveal_strlit(" ");
    assert(ident_text("dummy"@));
    let rest = tail_display_suffix(d);
    match d {
        Some(x) => {
            assert(rest =~= " "@ + ("\""@ + x + "\""@));
            assert(rest[0] == ' ');
            assert(!is_identifier_char(' '));
        },
        None => {},
    }
    lemma_ident_split("dummy"@, rest);
}

proof fn rt_objectives_add(a: ObjectivesAddView)
    requires
        valid_name(a.objective),
        match a.display_name {
            Some(d) => valid_quoted(d),
            None => true,
        },
    ensures
        sp_objectives_add(tail_objectives_add(a)) == Ok::<(ObjectivesAddView, Seq<char>), Error>(
            (a, Seq::empty()),
        ),
{
    reveal_strlit(" ");
    reveal_strlit("dummy");
    reveal_strlit("\"");
    let suffix = tail_display_suffix(a.display_name);
    let s = tail_objectives_add(a);
    assert(s =~= a.objective + (" "@ + ("dummy"@ + suffix)));
    assert((" "@ + ("dummy"@ + suffix))[0] == ' ');
    lemma_ident_split(a.objective, " "@ + ("dummy"@ + suffix));
    lemma_space_split("dummy"@ + suffix);
    rt_criteria(a.display_name);
    match a.display_name {
        Some(x) => {
            assert(suffix =~= " "@ + ("\""@ + x + "\""@ + Seq::<char>::empty()));
            assert(suffix.len() > 0);
            lemma_space_split("\""@ + x + "\""@ + Seq::<char>::empty());
            lemma_quoted_split(x, Seq::empty());
        },
        None => {},
    }
}

proof fn rt_modification(m: ModificationView)
    requires
        match m {
            ModificationView::DisplayName(d) => valid_quoted(d),
            ModificationView::RenderType(_) => true,
        },
    ensures
        sp_modification(tail_modification(m)) == Ok::<(ModificationView, Seq<char>), Error>(
            (m, Seq::empty()),
        ),
{
    reveal_strlit(" ");
    reveal_strlit("displayname");
    reveal_strlit("rendertype");
    reveal_strlit("hearts");
    reveal_strlit("integer");
    reveal_strlit("\"");
    assert(ident_text("displayname"@));
    assert(ident_text("rendertype"@));
    match m {
        ModificationView::DisplayName(d) => {
            let rest = " "@ + ("\""@ + d + "\""@);
            assert(tail_modification(m) =~= "displayname"@ + rest);
            assert(rest[0] == ' ');
            lemma_ident_split("displayname"@, rest);
            lemma_space_split("\""@ + d + "\""@);
            assert("\""@ + d + "\""@ =~= "\""@ + d + "\""@ + Seq::<char>::empty());
            lemma_quoted_split(d, Seq::empty());
        },
        ModificationView::RenderType(RenderType::Hearts) => {
            let rest = " "@ + "hearts"@;
            assert(tail_modification(m) =~= "rendertype"@ + rest);
            assert(rest[0] == ' ');
            lemma_ident_split("rendertype"@, rest);
            lemma_space_split("hearts"@);
            assert(ident_text("hearts"@));
            assert("hearts"@ =~= "hearts"@ + Seq::<char>::empty());
            lemma_ident_split("hearts"@, Seq::empty());
        },
        ModificationView::RenderType(RenderType::Integer) => {
            let rest = " "@ + "integer"@;
            assert(tail_modification(m) =~= "rendertype"@ + rest);
            assert(rest[0] == ' ');
            lemma_ident_split("rendertype"@, rest);
            lemma_space_split("integer"@);
            assert(ident_text("integer"@));
            assert("integer"@ =~= "integer"@ + Seq::<char>::empty());
            lemma_ident_split("integer"@, Seq::empty());
        },
    }
}

proof fn rt_name_at_end(n: Seq<char>)
    requires
        valid_name(n),
    ensures
        sp_identifier(n) == (n, Seq::<char>::empty()),
{
    assert(n =~= n + Seq::<char>::empty());
    lemma_ident_split(n, Seq::empty());
}

proof fn rt_objectives(o: ObjectivesView)
    requires
        valid_objectives(o),
    ensures
        sp_objectives(tail_objectives(o)) == Ok::<(ObjectivesView, Seq<char>), Error>(
            (o, Seq::empty()),
        ),
{
    reveal_strlit(" ");
    reveal_strlit("add");
    reveal_strlit("list");
    reveal_strlit("modify");
    reveal_strlit("remove");
    reveal_strlit("setdisplay");
    assert(ident_text("add"@));
    assert(ident_text("list"@));
    assert(ident_text("modify"@));
    assert(ident_text("remove"@));
    assert(ident_text("setdisplay"@));
    match o {
        ObjectivesView::Add(a) => {
            let rest = " "@ + tail_objectives_add(a);
            assert(tail_objectives(o) =~= "add"@ + rest);
            assert(rest[0] == ' ');
            lemma_ident_split("add"@, rest);
            lemma_space_split(tail_objectives_add(a));
            rt_objectives_add(a);
        },
        ObjectivesView::List => {
            assert(tail_objectives(o) =~= "list"@ + Seq::<char>::empty());
            lemma_ident_split("list"@, Seq::empty());
        },
        ObjectivesView::Modify(m) => {
            let args = m.objective + (" "@ + tail_modification(m.modification));
            let rest = " "@ + args;
            assert(tail_objectives(o) =~= "modify"@ + rest);
            assert(rest[0] == ' ');
            lemma_ident_split("modify"@, rest);
            lemma_space_split(args);
            assert((" "@ + tail_modification(m.modification))[0] == ' ');
            lemma_ident_split(m.objective, " "@ + tail_modification(m.modification));
            lemma_space_split(tail_modification(m.modification));
            rt_modification(m.modification);
        },
        ObjectivesView::Remove(r) => {
            let rest = " "@ + r.objective;
            assert(tail_objectives(o) =~= "remove"@ + rest);
            assert(rest[0] == ' ');
            lemma_ident_split("remove"@, rest);
            lemma_space_split(r.objective);
            rt_name_at_end(r.objective);
        },
        ObjectivesView::SetDisplay(sd) => {
            reveal_strlit("belowName");
            reveal_strlit("sidebar");
            assert(ident_text("belowName"@));
            assert(ident_text("sidebar"@));
            let slot_text = spec_lower_display_slot(sd.slot);
            let args = slot_text + (" "@ + sd.objective);
            let rest = " "@ + args;
            assert(tail_objectives(o) =~= "setdisplay"@ + rest);
            assert(rest[0] == ' ');
            lemma_ident_split("setdisplay"@, rest);
            lemma_space_split(args);
            assert((" "@ + sd.objective)[0] == ' ');
            match sd.slot {
                DisplaySlot::BelowName => {
                    lemma_ident_split("belowName"@, " "@ + sd.objective);
                },
                DisplaySlot::List => {
                    lemma_ident_split("list"@, " "@ + sd.objective);
                },
                DisplaySlot::Sidebar => {
                    lemma_ident_split("sidebar"@, " "@ + sd.objective);
                },
            }
            lemma_space_split(sd.objective);
            rt_name_at_end(sd.objective);
        },
    }
}

proof fn lemma_operator_split(w: Seq<char>, rest: Seq<char>)
    requires
        forall|i: int| 0 <= i < w.len() ==> #[trigger] w[i] != ' ',
        rest.len() > 0 ==> rest[0] == ' ',
    ensures
        sp_operator(w + rest) == (w, rest),
{
    assert(forall|i: int| 0 <= i < w.len() ==> not_char_pred(' ')(#[trigger] w[i]));
    if rest.len() > 0 {
        assert(!not_char_pred(' ')(rest[0]));
    }
    lemma_sp_take_concat(w, rest, not_char_pred(' '));
}

proof fn rt_operation_type(op: OperationType, rest: Seq<char>)
    requires
        rest.len() > 0 ==> rest[0] == ' ',
    ensures
        sp_operation_type(spec_lower_operation(op) + rest) == Ok::<
            (OperationType, Seq<char>),
            Error,
        >((op, rest)),
{
    reveal_strlit("+=");
    reveal_strlit("-=");
    reveal_strlit("*=");
    reveal_strlit("/=");
    reveal_strlit("%=");
    reveal_strlit("=");
    reveal_strlit("<");
    reveal_strlit(">");
    reveal_strlit("><");
    lemma_operator_split(spec_lower_operation(op), rest);
}

proof fn rt_players_common_tail(t: TargetView, objective: Seq<char>, after: Seq<char>)
    requires
        valid_target(t),
        valid_name(objective),
        after.len() > 0 ==> after[0] == ' ',
    ensures
        ({
            let s = spec_lower_target(t) + " "@ + objective + after;
            &&& sp_target(s) == Ok::<(TargetView, Seq<char>), Error>(
                (t, " "@ + (objective + after)),
            )
            &&& sp_space(" "@ + (objective + after)) == Ok::<Seq<char>, Error>(objective + after)
            &&& sp_identifier(objective + after) == (objective, after)
        }),
{
    reveal_strlit(" ");
    let s = spec_lower_target(t) + " "@ + objective + after;
    assert(s =~= spec_lower_target(t) + (" "@ + (objective + after)));
    assert((" "@ + (objective + after))[0] == ' ');
    lemma_target_split(t, " "@ + (objective + after));
    lemma_space_split(objective + after);
    if after.len() > 0 {
        assert(!is_identifier_char(after[0]));
    }
    lemma_ident_split(objective, after);
}

#[verifier::rlimit(100)]
#[verifier::spinoff_prover]
proof fn rt_players(p: PlayersView)
    requires
        valid_players(p),
    ensures
        sp_players(tail_players(p)) == Ok::<(PlayersView, Seq<char>), Error>((p, Seq::empty())),
{
    reveal_strlit(" ");
    reveal_strlit("add");
    reveal_strlit("enable");
    reveal_strlit("get");
    reveal_strlit("list");
    reveal_strlit("operation");
    reveal_strlit("remove");
    reveal_strlit("reset");
    reveal_strlit("set");
    assert(ident_text("add"@));
    assert(ident_text("enable"@));
    assert(ident_text("get"@));
    assert(ident_text("list"@));
    assert(ident_text("operation"@));
    assert(ident_text("remove"@));
    assert(ident_text("reset"@));
    assert(ident_text("set"@));
    match p {
        PlayersView::Add(a) => {
            let args = spec_lower_target(a.targets) + " "@ + a.objective + (" "@
                + spec_i32_string(a.score as int));
            let rest = " "@ + args;
            assert(tail_players(p) =~= "add"@ + rest);
            assert(rest[0] == ' ');
            lemma_ident_split("add"@, rest);
            lemma_space_split(args);
            rt_players_common_tail(
                a.targets,
                a.objective,
                " "@ + spec_i32_string(a.score as int),
            );
            lemma_space_split(spec_i32_string(a.score as int));
            assert(spec_i32_string(a.score as int) =~= spec_i32_string(a.score as int)
                + Seq::<char>::empty());
            lemma_positive_split(a.score, Seq::empty());
        },
        PlayersView::Enable(e) => {
            let args = spec_lower_target(e.targets) + " "@ + e.objective + Seq::<char>::empty();
            let rest = " "@ + args;
            assert(tail_players(p) =~= "enable"@ + rest);
            assert(rest[0] == ' ');
            lemma_ident_split("enable"@, rest);
            lemma_space_split(args);
            rt_players_common_tail(e.targets, e.objective, Seq::empty());
        },
        PlayersView::Get(g) => {
            let args = spec_lower_target(g.target) + " "@ + g.objective + Seq::<char>::empty();
            let rest = " "@ + args;
            assert(tail_players(p) =~= "get"@ + rest);
            assert(rest[0] == ' ');
            lemma_ident_split("get"@, rest);
            lemma_space_split(args);
            rt_players_common_tail(g.target, g.objective, Seq::empty());
        },
        PlayersView::List(l) => {
            match l.target {
                Some(t) => {
                    let rest = " "@ + spec_lower_target(t);
                    assert(tail_players(p) =~= "list"@ + rest);
                    assert(rest[0] == ' ');
                    lemma_ident_split("list"@, rest);
                    lemma_space_split(spec_lower_target(t));
                    assert(spec_lower_target(t) =~= spec_lower_target(t) + Seq::<char>::empty());
                    lemma_target_split(t, Seq::empty());
                },
                None => {
                    assert(tail_players(p) =~= "list"@ + Seq::<char>::empty());
                    lemma_ident_split("list"@, Seq::empty());
                },
            }
        },
        PlayersView::Operation(o) => {
            let op_on = spec_lower_operation(o.operation) + (" "@ + (spec_lower_target(o.source)
                + " "@ + o.source_objective + Seq::<char>::empty()));
            let args = spec_lower_target(o.targets) + " "@ + o.target_objective + (" "@ + op_on);
            let rest = " "@ + args;
            assert(tail_players(p) =~= "operation"@ + rest);
            assert(rest[0] == ' ');
            lemma_ident_split("operation"@, rest);
            lemma_space_split(args);
            rt_players_common_tail(o.targets, o.target_objective, " "@ + op_on);
            lemma_space_split(op_on);
            assert((" "@ + (spec_lower_target(o.source) + " "@ + o.source_objective
                + Seq::<char>::empty()))[0] == ' ');
            rt_operation_type(
                o.operation,
                " "@ + (spec_lower_target(o.source) + " "@ + o.source_objective
                    + Seq::<char>::empty()),
            );
            lemma_space_split(
                spec_lower_target(o.source) + " "@ + o.source_objective + Seq::<char>::empty(),
            );
            rt_players_common_tail(o.source, o.source_objective, Seq::empty());
        },
        PlayersView::Remove(r) => {
            let args = spec_lower_target(r.targets) + " "@ + r.objective + (" "@
                + spec_i32_string(r.score as int));
            let rest = " "@ + args;
            assert(tail_players(p) =~= "remove"@ + rest);
            assert(rest[0] == ' ');
            lemma_ident_split("remove"@, rest);
            lemma_space_split(args);
            rt_players_common_tail(
                r.targets,
                r.objective,
                " "@ + spec_i32_string(r.score as int),
            );
            lemma_space_split(spec_i32_string(r.score as int));
            assert(spec_i32_string(r.score as int) =~= spec_i32_string(r.score as int)
                + Seq::<char>::empty());
            lemma_positive_split(r.score, Seq::empty());
        },
        PlayersView::Reset(r) => {
            let args = spec_lower_target(r.targets) + " "@ + r.objective + Seq::<char>::empty();
            let rest = " "@ + args;
            assert(tail_players(p) =~= "reset"@ + rest);
            assert(rest[0] == ' ');
            lemma_ident_split("reset"@, rest);
            lemma_space_split(args);
            rt_players_common_tail(r.targets, r.objective, Seq::empty());
        },
        PlayersView::SetScore(st) => {
            let args = spec_lower_target(st.targets) + " "@ + st.objective + (" "@
                + spec_i32_string(st.score as int));
            let rest = " "@ + args;
            assert(tail_players(p) =~= "set"@ + rest);
            assert(rest[0] == ' ');
            lemma_ident_split("set"@, rest);
            lemma_space_split(args);
            rt_players_common_tail(
                st.targets,
                st.objective,
                " "@ + spec_i32_string(st.score as int),
            );
            lemma_space_split(spec_i32_string(st.score as int));
            assert(spec_i32_string(st.score as int) =~= spec_i32_string(st.score as int)
                + Seq::<char>::empty());
            lemma_signed_split(st.score, Seq::empty());
        },
    }
}

proof fn rt_scoreboard(s: ScoreboardView)
    requires
        match s {
            ScoreboardView::Objectives(o) => valid_objectives(o),
            ScoreboardView::Players(p) => valid_players(p),
        },
    ensures
        sp_scoreboard(tail_scoreboard(s)) == Ok::<(ScoreboardView, Seq<char>), Error>(
            (s, Seq::empty()),
        ),
{
    reveal_strlit(" ");
    reveal_strlit("objectives");
    reveal_strlit("players");
    assert(ident_text("objectives"@));
    assert(ident_text("players"@));
    match s {
        ScoreboardView::Objectives(o) => {
            let rest = " "@ + tail_objectives(o);
            assert(tail_scoreboard(s) =~= "objectives"@ + rest);
            assert(rest[0] == ' ');
            lemma_ident_split("objectives"@, rest);
            lemma_space_split(tail_objectives(o));
            rt_objectives(o);
        },
        ScoreboardView::Players(p) => {
            let rest = " "@ + tail_players(p);
            assert(tail_scoreboard(s) =~= "players"@ + rest);
            assert(rest[0] == ' ');
            lemma_ident_split("players"@, rest);
            lemma_space_split(tail_players(p));
            rt_players(p);
        },
    }
}

proof fn rt_function_identifier(f: FunctionIdentifierView)
    requires
        valid_function_identifier(f),
    ensures
        sp_function_identifier(tail_function_identifier(f)) == Ok::<
            (FunctionIdentifierView, Seq<char>),
            Error,
        >((f, Seq::empty())),
{
    reveal_strlit(":");
    match f.namespace {
        Some(ns) => {
            let s = ns + ":"@ + f.name;
            assert(s =~= ns + (":"@ + f.name));
            assert((":"@ + f.name)[0] == ':');
            assert(!is_identifier_char(':'));
            lemma_ident_split(ns, ":"@ + f.name);
            assert((":"@ + f.name).drop_first() =~= f.name);
            rt_name_at_end(f.name);
        },
        None => {
            rt_name_at_end(f.name);
        },
    }
}

// ---------------------------------------------------------------------------
// The execute chain and the whole command.
// ---------------------------------------------------------------------------

proof fn rt_source_comparison(sc: SourceComparisonView, t: TargetView, tobj: Seq<char>)
    requires
        valid_source_comparison(sc),
        t == sc.target,
        tobj == sc.target_objective,
    ensures
        sp_source_comparison(tail_source_comparison(sc), t, tobj) == Ok::<
            (SourceComparisonView, Seq<char>),
            Error,
        >((sc, Seq::empty())),
    decreases sc, 1int,
{
    reveal_strlit(" ");
    reveal_strlit("run");
    assert(ident_text("run"@));
    let cmd_text = spec_lower_command(*sc.command);
    let run_part = "run"@ + (" "@ + cmd_text);
    let after_src = " "@ + (sc.source_objective + (" "@ + run_part));
    assert(tail_source_comparison(sc) =~= spec_lower_target(sc.source) + after_src);
    assert(after_src[0] == ' ');
    lemma_target_split(sc.source, after_src);
    lemma_space_split(sc.source_objective + (" "@ + run_part));
    assert((" "@ + run_part)[0] == ' ');
    lemma_ident_split(sc.source_objective, " "@ + run_part);
    lemma_space_split(run_part);
    assert((" "@ + cmd_text)[0] == ' ');
    lemma_ident_split("run"@, " "@ + cmd_text);
    lemma_space_split(cmd_text);
    rt_command(*sc.command);
    assert(Box::new(*sc.command) == sc.command);
}

proof fn rt_range_comparison(rc: RangeComparisonView, t: TargetView, tobj: Seq<char>)
    requires
        valid_range_comparison(rc),
        t == rc.target,
        tobj == rc.target_objective,
    ensures
        sp_range_comparison(tail_range_comparison(rc), t, tobj) == Ok::<
            (RangeComparisonView, Seq<char>),
            Error,
        >((rc, Seq::empty())),
    decreases rc, 1int,
{
    reveal_strlit(" ");
    reveal_strlit("run");
    assert(ident_text("run"@));
    let cmd_text = spec_lower_command(*rc.command);
    let run_part = "run"@ + (" "@ + cmd_text);
    let after_iv = " "@ + (run_part);
    assert(tail_range_comparison(rc) =~= spec_lower_interval(rc.interval) + after_iv);
    assert(after_iv[0] == ' ');
    lemma_interval_split(rc.interval, after_iv);
    lemma_space_split(run_part);
    assert((" "@ + cmd_text)[0] == ' ');
    lemma_ident_split("run"@, " "@ + cmd_text);
    lemma_space_split(cmd_text);
    rt_command(*rc.command);
    assert(Box::new(*rc.command) == rc.command);
}

#[verifier::rlimit(100)]
#[verifier::spinoff_prover]
proof fn rt_comparison(sv: ScoreView, t: TargetView, tobj: Seq<char>)
    requires
        valid_score(sv),
        t == score_parts(sv).0,
        tobj == score_parts(sv).1,
    ensures
        sp_comparison(tail_comparison(sv), t, tobj) == Ok::<(ScoreView, Seq<char>), Error>(
            (sv, Seq::empty()),
        ),
    decreases sv, 0int,
{
    reveal_strlit(" ");
    reveal_strlit("<");
    reveal_strlit("<=");
    reveal_strlit(">");
    reveal_strlit(">=");
    reveal_strlit("=");
    reveal_strlit("matches");
    let cmp = tail_comparison(sv);
    match sv {
        ScoreView::Less(sc) => {
            assert(cmp =~= "<"@ + (" "@ + tail_source_comparison(sc)));
            assert((" "@ + tail_source_comparison(sc))[0] == ' ');
            lemma_operator_split("<"@, " "@ + tail_source_comparison(sc));
            lemma_space_split(tail_source_comparison(sc));
            rt_source_comparison(sc, t, tobj);
        },
        ScoreView::LessEqual(sc) => {
            assert(cmp =~= "<="@ + (" "@ + tail_source_comparison(sc)));
            assert((" "@ + tail_source_comparison(sc))[0] == ' ');
            lemma_operator_split("<="@, " "@ + tail_source_comparison(sc));
            lemma_space_split(tail_source_comparison(sc));
            rt_source_comparison(sc, t, tobj);
        },
        ScoreView::Greater(sc) => {
            assert(cmp =~= ">"@ + (" "@ + tail_source_comparison(sc)));
            assert((" "@ + tail_source_comparison(sc))[0] == ' ');
            lemma_operator_split(">"@, " "@ + tail_source_comparison(sc));
            lemma_space_split(tail_source_comparison(sc));
            rt_source_comparison(sc, t, tobj);
        },
        ScoreView::GreaterEqual(sc) => {
            assert(cmp =~= ">="@ + (" "@ + tail_source_comparison(sc)));
            assert((" "@ + tail_source_comparison(sc))[0] == ' ');
            lemma_operator_split(">="@, " "@ + tail_source_comparison(sc));
            lemma_space_split(tail_source_comparison(sc));
            rt_source_comparison(sc, t, tobj);
        },
        ScoreView::Equal(sc) => {
            assert(cmp =~= "="@ + (" "@ + tail_source_comparison(sc)));
            assert((" "@ + tail_source_comparison(sc))[0] == ' ');
            lemma_operator_split("="@, " "@ + tail_source_comparison(sc));
            lemma_space_split(tail_source_comparison(sc));
            rt_source_comparison(sc, t, tobj);
        },
        ScoreView::Matches(rc) => {
            assert(cmp =~= "matches"@ + (" "@ + tail_range_comparison(rc)));
            assert((" "@ + tail_range_comparison(rc))[0] == ' ');
            lemma_operator_split("matches"@, " "@ + tail_range_comparison(rc));
            lemma_space_split(tail_range_comparison(rc));
            rt_range_comparison(rc, t, tobj);
        },
    }
}

proof fn rt_score(sv: ScoreView)
    requires
        valid_score(sv),
    ensures
        sp_score(tail_score(sv)) == Ok::<(ScoreView, Seq<char>), Error>((sv, Seq::empty())),
    decreases sv, 1int,
{
    reveal_strlit(" ");
    let t = score_parts(sv).0;
    let tobj = score_parts(sv).1;
    let cmp = tail_comparison(sv);
    let s = tail_score(sv);
    assert(s =~= spec_lower_target(t) + (" "@ + (tobj + (" "@ + cmp))));
    assert((" "@ + (tobj + (" "@ + cmp)))[0] == ' ');
    assert(valid_target(t) && valid_name(tobj)) by {
        match sv {
            ScoreView::Less(sc) => {},
            ScoreView::LessEqual(sc) => {},
            ScoreView::Greater(sc) => {},
            ScoreView::GreaterEqual(sc) => {},
            ScoreView::Equal(sc) => {},
            ScoreView::Matches(rc) => {},
        }
    }
    lemma_target_split(t, " "@ + (tobj + (" "@ + cmp)));
    lemma_space_split(tobj + (" "@ + cmp));
    assert((" "@ + cmp)[0] == ' ');
    lemma_ident_split(tobj, " "@ + cmp);
    lemma_space_split(cmp);
    rt_comparison(sv, t, tobj);
}

/// The lowered text of an `objectives` command, regrouped into tokens.
proof fn lemma_shape_objectives(o: ObjectivesView)
    ensures
        crate::lower::spec_lower_objectives(o) == "scoreboard"@ + " "@ + "objectives"@ + " "@
            + tail_objectives(o),
{
    reveal_strlit(" ");
    reveal_strlit("scoreboard objectives add ");
    reveal_strlit("scoreboard objectives list");
    reveal_strlit("scoreboard objectives modify ");
    reveal_strlit("scoreboard objectives remove ");
    reveal_strlit("scoreboard objectives setdisplay ");
    reveal_strlit("scoreboard");
    reveal_strlit("objectives");
    reveal_strlit("add");
    reveal_strlit("list");
    reveal_strlit("modify");
    reveal_strlit("remove");
    reveal_strlit("setdisplay");
    reveal_strlit("dummy");
    reveal_strlit(" \"");
    reveal_strlit("\"");
    reveal_strlit(" displayname \"");
    reveal_strlit("displayname");
    reveal_strlit(" rendertype hearts");
    reveal_strlit(" rendertype integer");
    reveal_strlit("rendertype");
    reveal_strlit("hearts");
    reveal_strlit("integer");
    let whole = "scoreboard"@ + " "@ + "objectives"@ + " "@ + tail_objectives(o);
    match o {
        ObjectivesView::Add(a) => {
            match a.display_name {
                Some(d) => {
                    assert(crate::lower::spec_lower_objectives(o) =~= whole);
                },
                None => {
                    assert(crate::lower::spec_lower_objectives(o) =~= whole);
                },
            }
        },
        ObjectivesView::List => {
            assert(crate::lower::spec_lower_objectives(o) =~= whole);
        },
        ObjectivesView::Modify(m) => {
            match m.modification {
                ModificationView::DisplayName(d) => {
                    assert(crate::lower::spec_lower_objectives(o) =~= whole);
                },
                ModificationView::RenderType(RenderType::Hearts) => {
                    assert(crate::lower::spec_lower_objectives(o) =~= whole);
                },
                ModificationView::RenderType(RenderType::Integer) => {
                    assert(crate::lower::spec_lower_objectives(o) =~= whole);
                },
            }
        },
        ObjectivesView::Remove(r) => {
            assert(crate::lower::spec_lower_objectives(o) =~= whole);
        },
        ObjectivesView::SetDisplay(sd) => {
            assert(crate::lower::spec_lower_objectives(o) =~= whole);
        },
    }
}

/// The lowered text of a `players` command, regrouped into tokens.
#[verifier::rlimit(100)]
#[verifier::spinoff_prover]
proof fn lemma_shape_players(p: PlayersView)
    ensures
        crate::lower::spec_lower_players(p) == "scoreboard"@ + " "@ + "players"@ + " "@
            + tail_players(p),
{
    reveal_strlit(" ");
    reveal_strlit("scoreboard players add ");
    reveal_strlit("scoreboard players enable ");
    reveal_strlit("scoreboard players get ");
    reveal_strlit("scoreboard players list ");
    reveal_strlit("scoreboard players list");
    reveal_strlit("scoreboard players operation ");
    reveal_strlit("scoreboard players remove ");
    reveal_strlit("scoreboard players reset ");
    reveal_strlit("scoreboard players set ");
    reveal_strlit("scoreboard");
    reveal_strlit("players");
    reveal_strlit("add");
    reveal_strlit("enable");
    reveal_strlit("get");
    reveal_strlit("list");
    reveal_strlit("operation");
    reveal_strlit("remove");
    reveal_strlit("reset");
    reveal_strlit("set");
    let whole = "scoreboard"@ + " "@ + "players"@ + " "@ + tail_players(p);
    match p {
        PlayersView::Add(a) => {
            assert(crate::lower::spec_lower_players(p) =~= whole);
        },
        PlayersView::Enable(e) => {
            assert(crate::lower::spec_lower_players(p) =~= whole);
        },
        PlayersView::Get(g) => {
            assert(crate::lower::spec_lower_players(p) =~= whole);
        },
        PlayersView::List(l) => {
            match l.target {
                Some(t) => {
                    assert(crate::lower::spec_lower_players(p) =~= whole);
                },
                None => {
                    assert(crate::lower::spec_lower_players(p) =~= whole);
                },
            }
        },
        PlayersView::Operation(o) => {
            assert(crate::lower::spec_lower_players(p) =~= whole);
        },
        PlayersView::Remove(r) => {
            assert(crate::lower::spec_lower_players(p) =~= whole);
        },
        PlayersView::Reset(r) => {
            assert(crate::lower::spec_lower_players(p) =~= whole);
        },
        PlayersView::SetScore(st) => {
            assert(crate::lower::spec_lower_players(p) =~= whole);
        },
    }
}

/// The lowered text of a `function` command, regrouped into tokens.
proof fn lemma_shape_function(f: FunctionIdentifierView)
    ensures
        crate::lower::spec_lower_function(f) == "function"@ + " "@ + tail_function_identifier(f),
{
    reveal_strlit(" ");
    reveal_strlit("function ");
    reveal_strlit("function");
    reveal_strlit(":");
    match f.namespace {
        Some(ns) => {
            assert(crate::lower::spec_lower_function(f) =~= "function"@ + " "@
                + tail_function_identifier(f));
        },
        None => {
            assert(crate::lower::spec_lower_function(f) =~= "function"@ + " "@
                + tail_function_identifier(f));
        },
    }
}

/// The lowered text of an `execute` command, regrouped into tokens.
#[verifier::rlimit(100)]
#[verifier::spinoff_prover]
proof fn lemma_shape_score(sv: ScoreView)
    ensures
        crate::lower::spec_lower_score(sv) == "execute"@ + " "@ + "if"@ + " "@ + "score"@ + " "@
            + tail_score(sv),
{
    reveal_strlit(" ");
    reveal_strlit("execute if score ");
    reveal_strlit("execute");
    reveal_strlit("if");
    reveal_strlit("score");
    reveal_strlit(" run ");
    reveal_strlit("run");
    reveal_strlit(" matches ");
    reveal_strlit("matches");
    reveal_strlit("<");
    reveal_strlit("<=");
    reveal_strlit(">");
    reveal_strlit(">=");
    reveal_strlit("=");
    let whole = "execute"@ + " "@ + "if"@ + " "@ + "score"@ + " "@ + tail_score(sv);
    match sv {
        ScoreView::Less(sc) => {
            assert(crate::lower::spec_lower_score(sv) =~= whole);
        },
        ScoreView::LessEqual(sc) => {
            assert(crate::lower::spec_lower_score(sv) =~= whole);
        },
        ScoreView::Greater(sc) => {
            assert(crate::lower::spec_lower_score(sv) =~= whole);
        },
        ScoreView::GreaterEqual(sc) => {
            assert(crate::lower::spec_lower_score(sv) =~= whole);
        },
        ScoreView::Equal(sc) => {
            assert(crate::lower::spec_lower_score(sv) =~= whole);
        },
        ScoreView::Matches(rc) => {
            assert(crate::lower::spec_lower_score(sv) =~= whole);
        },
    }
}

/// The lowered text of a command, regrouped into its tokens.
proof fn lemma_lower_shape(c: CommandView)
    ensures
        spec_lower_command(c) == tail_command(c),
{
    match c {
        CommandView::Scoreboard(ScoreboardView::Objectives(o)) => {
            lemma_shape_objectives(o);
        },
        CommandView::Scoreboard(ScoreboardView::Players(p)) => {
            lemma_shape_players(p);
        },
        CommandView::Function(f) => {
            lemma_shape_function(f);
        },
        CommandView::Execute(ExecuteView::If(IfView::Score(sv))) => {
            lemma_shape_score(sv);
        },
        CommandView::Tellraw(_) => {},
    }
}

/// Parsing the lowered text of a well-formed command consumes the whole
/// line and yields the command back.
pub proof fn rt_command(c: CommandView)
    requires
        valid_command(c),
    ensures
        sp_command(spec_lower_command(c)) == Ok::<(CommandView, Seq<char>), Error>(
            (c, Seq::empty()),
        ),
    decreases c, 1int,
{
    reveal_strlit(" ");
    reveal_strlit("scoreboard");
    reveal_strlit("function");
    reveal_strlit("execute");
    reveal_strlit("if");
    reveal_strlit("score");
    assert(ident_text("scoreboard"@));
    assert(ident_text("function"@));
    assert(ident_text("execute"@));
    assert(ident_text("if"@));
    assert(ident_text("score"@));
    lemma_lower_shape(c);
    match c {
        CommandView::Scoreboard(s) => {
            let rest = " "@ + tail_scoreboard(s);
            assert(tail_command(c) =~= "scoreboard"@ + rest);
            assert(rest[0] == ' ');
            lemma_ident_split("scoreboard"@, rest);
            lemma_space_split(tail_scoreboard(s));
            rt_scoreboard(s);
        },
        CommandView::Function(f) => {
            let rest = " "@ + tail_function_identifier(f);
            assert(tail_command(c) =~= "function"@ + rest);
            assert(rest[0] == ' ');
            lemma_ident_split("function"@, rest);
            lemma_space_split(tail_function_identifier(f));
            rt_function_identifier(f);
        },
        CommandView::Execute(ExecuteView::If(IfView::Score(sv))) => {
            let if_part = "if"@ + (" "@ + ("score"@ + (" "@ + tail_score(sv))));
            let rest = " "@ + if_part;
            assert(tail_command(c) =~= "execute"@ + rest);
            assert(rest[0] == ' ');
            lemma_ident_split("execute"@, rest);
            lemma_space_split(if_part);
            assert((" "@ + ("score"@ + (" "@ + tail_score(sv))))[0] == ' ');
            lemma_ident_split("if"@, " "@ + ("score"@ + (" "@ + tail_score(sv))));
            lemma_space_split("score"@ + (" "@ + tail_score(sv)));
            assert((" "@ + tail_score(sv))[0] == ' ');
            lemma_ident_split("score"@, " "@ + tail_score(sv));
            lemma_space_split(tail_score(sv));
            rt_score(sv);
        },
        CommandView::Tellraw(_) => {},
    }
}

/// The round trip: for every well-formed command value, lowering it and
/// parsing the resulting line yields exactly that command.
pub proof fn lemma_parse_line_round_trip(c: CommandView)
    requires
        valid_command(c),
    ensures
        spec_parse_line(spec_lower_command(c)) == Ok::<CommandView, Error>(c),
{
    rt_command(c);
}

} // verus!
