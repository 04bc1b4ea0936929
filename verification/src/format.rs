//! Short texts for numbers and times.
use crate::clock;
use crate::clock::{elapsed_secs, local_now, Moment};
use crate::double;
use crate::double::quotient_string;
use crate::json;
use crate::text;
use crate::text::{cat, cat3, decimal_string, str_starts_with};
use vstd::prelude::*;

verus! {

/// A count of tokens: in full under a thousand, else in thousands or millions.
pub open spec fn count_text(n: nat) -> Seq<char> {
    if n >= 1_000_000 {
        double::quotient_text(n, 1_000_000) + "M"@
    } else if n >= 1_000 {
        double::quotient_text(n, 1_000) + "k"@
    } else {
        text::decimal(n)
    }
}

/// A count of tokens: `840`, `12.4k`, `1.8M`.
pub fn fmt_count(n: usize) -> (r: String)
    ensures
        r@ == count_text(n as nat),
{
    if n >= 1_000_000 {
        cat(quotient_string(n as u64, 1_000_000).as_str(), "M")
    } else if n >= 1_000 {
        cat(quotient_string(n as u64, 1_000).as_str(), "k")
    } else {
        decimal_string(n as u64)
    }
}

/// What a cost looks like that is only a floor.
pub open spec fn cost_text(cost: Seq<char>, partial: bool) -> Seq<char> {
    if partial {
        "≥ "@ + cost + " (excludes unpriced usage)"@
    } else {
        cost
    }
}

/// A cost, marked where calls without a price were left out of it.
pub fn fmt_cost_maybe_partial(cost: &str, partial: bool) -> (r: String)
    ensures
        r@ == cost_text(cost@, partial),
{
    if partial {
        cat3("≥ ", cost, " (excludes unpriced usage)")
    } else {
        cost.to_string()
    }
}

// ---------------------------------------------------------------------------
// Times
// ---------------------------------------------------------------------------

/// How long ago something was, in its largest unit and, from an hour on, the next one.
pub open spec fn ago_text(secs: nat) -> Seq<char> {
    if secs < 5 {
        "now"@
    } else if secs < 60 {
        text::decimal(secs) + "s ago"@
    } else if secs < 3_600 {
        text::decimal(secs / 60) + "m ago"@
    } else if secs < 86_400 {
        text::decimal(secs / 3_600) + "h"@ + (if (secs % 3_600) / 60 > 0 {
            text::decimal((secs % 3_600) / 60) + "m ago"@
        } else {
            " ago"@
        })
    } else {
        text::decimal(secs / 86_400) + "d"@ + (if (secs % 86_400) / 3_600 > 0 {
            text::decimal((secs % 86_400) / 3_600) + "h ago"@
        } else {
            " ago"@
        })
    }
}

/// How long ago `then` was.
pub fn relative_time(then: Moment) -> (r: String)
    requires
        then.wf(),
    ensures
        exists|now: Moment| now.wf() && r@ == #[trigger] ago_text(clock::elapsed(then, now) as nat),
{
    let now = local_now();
    relative_time_since(then, now)
}

/// How long before `now` was `then`; nothing has passed where it was later.
pub fn relative_time_since(then: Moment, now: Moment) -> (r: String)
    requires
        then.wf(),
        now.wf(),
    ensures
        r@ == ago_text(clock::elapsed(then, now) as nat),
{
    let secs: u64 = elapsed_secs(then, now);
    if secs < 5 {
        "now".to_string()
    } else if secs < 60 {
        cat(decimal_string(secs).as_str(), "s ago")
    } else if secs < 3_600 {
        cat(decimal_string(secs / 60).as_str(), "m ago")
    } else if secs < 86_400 {
        let m: u64 = (secs % 3_600) / 60;
        let head = cat(decimal_string(secs / 3_600).as_str(), "h");
        if m > 0 {
            cat(head.as_str(), cat(decimal_string(m).as_str(), "m ago").as_str())
        } else {
            cat(head.as_str(), " ago")
        }
    } else {
        let h: u64 = (secs % 86_400) / 3_600;
        let head = cat(decimal_string(secs / 86_400).as_str(), "d");
        if h > 0 {
            cat(head.as_str(), cat(decimal_string(h).as_str(), "h ago").as_str())
        } else {
            cat(head.as_str(), " ago")
        }
    }
}

/// A number that stands for the text of how long ago something was.
pub open spec fn bucket(secs: nat) -> nat {
    if secs < 5 {
        0
    } else if secs < 60 {
        100 + secs
    } else if secs < 3_600 {
        1_000 + secs / 60
    } else if secs < 86_400 {
        10_000 + secs / 60
    } else {
        100_000 + secs / 3_600
    }
}

/// The number that stands for the text of [`relative_time_since`]: a cache can be keyed
/// by it without building the text.
pub fn relative_time_bucket(then: Moment, now: Moment) -> (r: u64)
    requires
        then.wf(),
        now.wf(),
    ensures
        r == bucket(clock::elapsed(then, now) as nat),
{
    let secs: u64 = elapsed_secs(then, now);
    if secs < 5 {
        0
    } else if secs < 60 {
        100 + secs
    } else if secs < 3_600 {
        1_000 + secs / 60
    } else if secs < 86_400 {
        10_000 + secs / 60
    } else {
        100_000 + secs / 3_600
    }
}

/// What follows the leading number of a text of how long ago something was.
spec fn ago_rest(secs: nat) -> Seq<char> {
    if secs < 60 {
        "s ago"@
    } else if secs < 3_600 {
        "m ago"@
    } else if secs < 86_400 {
        "h"@ + (if (secs % 3_600) / 60 > 0 {
            text::decimal((secs % 3_600) / 60) + "m ago"@
        } else {
            " ago"@
        })
    } else {
        "d"@ + (if (secs % 86_400) / 3_600 > 0 {
            text::decimal((secs % 86_400) / 3_600) + "h ago"@
        } else {
            " ago"@
        })
    }
}

/// The leading number of a text of how long ago something was.
spec fn ago_number(secs: nat) -> nat {
    if secs < 60 {
        secs
    } else if secs < 3_600 {
        secs / 60
    } else if secs < 86_400 {
        secs / 3_600
    } else {
        secs / 86_400
    }
}

proof fn lemma_ago_parts(secs: nat)
    requires
        secs >= 5,
    ensures
        ago_text(secs) == text::decimal(ago_number(secs)) + ago_rest(secs),
        ago_rest(secs).len() > 0,
        ago_rest(secs)[0] == (if secs < 60 {
            's'
        } else if secs < 3_600 {
            'm'
        } else if secs < 86_400 {
            'h'
        } else {
            'd'
        }),
{
    reveal_strlit("s ago");
    reveal_strlit("m ago");
    reveal_strlit("h");
    reveal_strlit("d");
    assert(ago_text(secs) =~= text::decimal(ago_number(secs)) + ago_rest(secs));
}

/// What follows the unit of a text of how long ago something was tells the smaller unit.
proof fn lemma_tail(a: nat, b: nat, end: Seq<char>)
    requires
        end.len() > 0,
        !text::is_digit(end[0]),
        ({
            let x = if a > 0 {
                text::decimal(a) + end
            } else {
                " ago"@
            };
            let y = if b > 0 {
                text::decimal(b) + end
            } else {
                " ago"@
            };
            x == y
        }),
    ensures
        a == b,
{
    reveal_strlit(" ago");
    text::lemma_decimal_digits(a);
    text::lemma_decimal_digits(b);
    if a > 0 && b > 0 {
        text::lemma_decimal_prefix(a, end, b, end);
    } else if a > 0 {
        assert((text::decimal(a) + end)[0] == text::decimal(a)[0]);
    } else if b > 0 {
        assert((text::decimal(b) + end)[0] == text::decimal(b)[0]);
    }
}

/// What stands after the hours, where a text begins with hours.
spec fn after_hours(secs: nat) -> Seq<char> {
    if (secs % 3_600) / 60 > 0 {
        text::decimal((secs % 3_600) / 60) + "m ago"@
    } else {
        " ago"@
    }
}

/// What stands after the days, where a text begins with days.
spec fn after_days(secs: nat) -> Seq<char> {
    if (secs % 86_400) / 3_600 > 0 {
        text::decimal((secs % 86_400) / 3_600) + "h ago"@
    } else {
        " ago"@
    }
}

proof fn lemma_units(secs: nat)
    ensures
        secs / 60 == 60 * (secs / 3_600) + (secs % 3_600) / 60,
        (secs % 3_600) / 60 < 60,
        secs / 3_600 == 24 * (secs / 86_400) + (secs % 86_400) / 3_600,
        (secs % 86_400) / 3_600 < 24,
{
}

proof fn lemma_same_text(a: nat, b: nat)
    requires
        a >= 5,
        b >= 5,
        ago_text(a) == ago_text(b),
    ensures
        bucket(a) == bucket(b),
{
    lemma_ago_parts(a);
    lemma_ago_parts(b);
    lemma_units(a);
    lemma_units(b);
    text::lemma_decimal_prefix(ago_number(a), ago_rest(a), ago_number(b), ago_rest(b));
    reveal_strlit("m ago");
    reveal_strlit("h ago");
    reveal_strlit("h");
    reveal_strlit("d");
    if 3_600 <= a < 86_400 {
        assert(ago_rest(a).skip(1) =~= after_hours(a));
        assert(ago_rest(b).skip(1) =~= after_hours(b));
        lemma_tail((a % 3_600) / 60, (b % 3_600) / 60, "m ago"@);
    } else if a >= 86_400 {
        assert(ago_rest(a).skip(1) =~= after_days(a));
        assert(ago_rest(b).skip(1) =~= after_days(b));
        lemma_tail((a % 86_400) / 3_600, (b % 86_400) / 3_600, "h ago"@);
    }
}

proof fn lemma_same_bucket(a: nat, b: nat)
    requires
        bucket(a) == bucket(b),
    ensures
        ago_text(a) == ago_text(b),
{
    lemma_units(a);
    lemma_units(b);
    assert(a < 5 <==> b < 5);
    assert(a < 60 <==> b < 60);
    assert(a < 3_600 <==> b < 3_600);
    assert(a < 86_400 <==> b < 86_400);
}

/// Two times share a number exactly where they share a text.
pub proof fn law_bucket_stands_for_the_text(a: nat, b: nat)
    ensures
        bucket(a) == bucket(b) <==> ago_text(a) == ago_text(b),
{
    if bucket(a) == bucket(b) {
        lemma_same_bucket(a, b);
    }
    if ago_text(a) == ago_text(b) {
        reveal_strlit("now");
        if a >= 5 {
            lemma_ago_parts(a);
            text::lemma_decimal_digits(ago_number(a));
            assert(ago_text(a)[0] == text::decimal(ago_number(a))[0]);
        }
        if b >= 5 {
            lemma_ago_parts(b);
            text::lemma_decimal_digits(ago_number(b));
            assert(ago_text(b)[0] == text::decimal(ago_number(b))[0]);
        }
        if a >= 5 && b >= 5 {
            lemma_same_text(a, b);
        }
    }
}

// ---------------------------------------------------------------------------
// A finished turn
// ---------------------------------------------------------------------------

/// What a finished turn cost and how fast it ran. Durations and rates are given as they
/// are to be shown.
#[derive(Debug, Clone, PartialEq, Eq)]
pub struct TurnStatsLine<S = String> {
    /// The model's working time, in seconds.
    pub elapsed_secs: S,
    /// The part of it in which tokens came, in seconds, where that is worth telling
    /// apart.
    pub gen_secs: Option<S>,
    /// The time before the first token, in seconds.
    pub ttft_secs: Option<S>,
    /// The tokens of the turn's output.
    pub out_tokens: usize,
    /// Tokens per second.
    pub tok_per_sec: S,
    /// The last round's prompt and completion tokens.
    pub usage: Option<(u32, u32)>,
    /// The last round's prompt tokens that came from the cache.
    pub cached_tokens: Option<u32>,
    /// The last round's completion tokens that were spent on reasoning.
    pub reasoning_tokens: Option<u32>,
}

impl View for TurnStatsLine<String> {
    type V = TurnStatsLine<Seq<char>>;

    open spec fn view(&self) -> TurnStatsLine<Seq<char>> {
        TurnStatsLine {
            elapsed_secs: self.elapsed_secs@,
            gen_secs: json::opt_view(self.gen_secs),
            ttft_secs: json::opt_view(self.ttft_secs),
            out_tokens: self.out_tokens,
            tok_per_sec: self.tok_per_sec@,
            usage: self.usage,
            cached_tokens: self.cached_tokens,
            reasoning_tokens: self.reasoning_tokens,
        }
    }
}

/// How many prompt tokens there are to one completion token.
pub open spec fn ratio_text(prompt: u32, completion: u32) -> Seq<char> {
    if completion > 0 {
        double::quotient_text(prompt as nat, completion as nat)
    } else {
        "0.0"@
    }
}

/// A count worth telling, with what it counts.
pub open spec fn counted(n: Option<u32>, what: Seq<char>) -> Seq<char> {
    match n {
        Some(c) => if c > 0 {
            " · "@ + text::decimal(c as nat) + what
        } else {
            Seq::empty()
        },
        None => Seq::empty(),
    }
}

/// What is said of a finished turn; nothing where there is nothing to measure.
pub open spec fn stats_text(s: TurnStatsLine<Seq<char>>) -> Option<Seq<char>> {
    if s.out_tokens == 0 && s.usage is None {
        None
    } else {
        Some(
            "✓ "@ + text::decimal(s.out_tokens as nat) + " tok · "@ + s.tok_per_sec + " tok/s · "@
                + s.elapsed_secs + "s"@ + (match s.gen_secs {
                Some(g) => " ("@ + g + "s generating)"@,
                None => Seq::empty(),
            }) + (match s.ttft_secs {
                Some(t) => " · ttft "@ + t + "s"@,
                None => Seq::empty(),
            }) + (match s.usage {
                Some((p, c)) => " · ctx "@ + text::decimal(p as nat) + " (in/out "@ + text::decimal(
                    p as nat,
                ) + "/"@ + text::decimal(c as nat) + ", "@ + ratio_text(p, c) + ":1)"@ + counted(
                    s.cached_tokens,
                    " cached"@,
                ) + counted(s.reasoning_tokens, " reasoning"@),
                None => Seq::empty(),
            }),
        )
    }
}

fn count_of_kind(n: Option<u32>, what: &str) -> (r: String)
    ensures
        r@ == counted(n, what@),
{
    match n {
        Some(c) => if c > 0 {
            cat3(" · ", decimal_string(c as u64).as_str(), what)
        } else {
            String::new()
        },
        None => String::new(),
    }
}

fn usage_part(s: &TurnStatsLine, p: u32, c: u32) -> (r: String)
    ensures
        r@ == " · ctx "@ + text::decimal(p as nat) + " (in/out "@ + text::decimal(p as nat) + "/"@
            + text::decimal(c as nat) + ", "@ + ratio_text(p, c) + ":1)"@ + counted(
            s.cached_tokens,
            " cached"@,
        ) + counted(s.reasoning_tokens, " reasoning"@),
{
    let prompt = decimal_string(p as u64);
    let mut out = cat3(" · ctx ", prompt.as_str(), " (in/out ");
    out.append(prompt.as_str());
    out.append("/");
    out.append(decimal_string(c as u64).as_str());
    out.append(", ");
    if c > 0 {
        out.append(quotient_string(p as u64, c as u64).as_str());
    } else {
        out.append("0.0");
    }
    out.append(":1)");
    out.append(count_of_kind(s.cached_tokens, " cached").as_str());
    out.append(count_of_kind(s.reasoning_tokens, " reasoning").as_str());
    out
}

/// What is said of a finished turn; `None` where there is nothing to measure.
pub fn turn_stats_line(s: &TurnStatsLine) -> (r: Option<String>)
    ensures
        json::opt_view(r) == stats_text(s@),
{
    if s.out_tokens == 0 && s.usage.is_none() {
        return None;
    }
    let mut out = cat3("✓ ", decimal_string(s.out_tokens as u64).as_str(), " tok · ");
    out.append(s.tok_per_sec.as_str());
    out.append(" tok/s · ");
    out.append(s.elapsed_secs.as_str());
    out.append("s");
    let ghost head = out@;
    let generating = match &s.gen_secs {
        Some(g) => cat3(" (", g.as_str(), "s generating)"),
        None => String::new(),
    };
    out.append(generating.as_str());
    let first = match &s.ttft_secs {
        Some(t) => cat3(" · ttft ", t.as_str(), "s"),
        None => String::new(),
    };
    out.append(first.as_str());
    let context = match s.usage {
        Some((p, c)) => usage_part(s, p, c),
        None => String::new(),
    };
    out.append(context.as_str());
    Some(out)
}

// ---------------------------------------------------------------------------
// Diffs
// ---------------------------------------------------------------------------

/// What a line of a unified diff is.
#[derive(Debug, Clone, Copy, PartialEq, Eq, Structural)]
pub enum DiffLineKind {
    /// The header of the new file.
    FileAdd,
    /// The header of the old file.
    FileRemove,
    /// The header of a hunk.
    Hunk,
    /// A line that was added.
    Add,
    /// A line that was removed.
    Remove,
    /// Anything else.
    Meta,
}

/// What a line of a unified diff is.
pub open spec fn diff_line_kind(line: Seq<char>) -> DiffLineKind {
    if text::starts_with(line, "+++"@) {
        DiffLineKind::FileAdd
    } else if text::starts_with(line, "---"@) {
        DiffLineKind::FileRemove
    } else if text::starts_with(line, "@"@) {
        DiffLineKind::Hunk
    } else if text::starts_with(line, "+"@) {
        DiffLineKind::Add
    } else if text::starts_with(line, "-"@) {
        DiffLineKind::Remove
    } else {
        DiffLineKind::Meta
    }
}

/// What a line of a unified diff is.
pub fn classify_diff_line(line: &str) -> (r: DiffLineKind)
    ensures
        r == diff_line_kind(line@),
{
    if str_starts_with(line, "+++") {
        DiffLineKind::FileAdd
    } else if str_starts_with(line, "---") {
        DiffLineKind::FileRemove
    } else if str_starts_with(line, "@") {
        DiffLineKind::Hunk
    } else if str_starts_with(line, "+") {
        DiffLineKind::Add
    } else if str_starts_with(line, "-") {
        DiffLineKind::Remove
    } else {
        DiffLineKind::Meta
    }
}

/// How long ago something was reads in its largest unit, rounded down, and, from an hour
/// on, in the next one too, where there is any of it left.
pub proof fn law_how_long_ago_reads_in_its_largest_unit(secs: nat)
    ensures
        secs < 5 ==> ago_text(secs) == "now"@,
        5 <= secs < 60 ==> ago_text(secs) == text::decimal(secs) + "s ago"@,
        60 <= secs < 3_600 ==> exists|m: nat|
            ago_text(secs) == #[trigger] text::decimal(m) + "m ago"@ && m * 60 <= secs < (m + 1)
                * 60,
        3_600 <= secs < 86_400 ==> exists|h: nat, m: nat|
            h * 3_600 + m * 60 <= secs < h * 3_600 + (m + 1) * 60 && m < 60 && ago_text(secs) == (
            if m > 0 {
                #[trigger] text::decimal(h) + "h"@ + (#[trigger] text::decimal(m) + "m ago"@)
            } else {
                text::decimal(h) + "h"@ + " ago"@
            }),
        secs >= 86_400 ==> exists|d: nat, h: nat|
            d * 86_400 + h * 3_600 <= secs < d * 86_400 + (h + 1) * 3_600 && h < 24 && ago_text(secs)
                == (if h > 0 {
                #[trigger] text::decimal(d) + "d"@ + (#[trigger] text::decimal(h) + "h ago"@)
            } else {
                text::decimal(d) + "d"@ + " ago"@
            }),
{
    if secs >= 86_400 {
        let d = secs / 86_400;
        let h = (secs % 86_400) / 3_600;
        assert(d * 86_400 + h * 3_600 <= secs < d * 86_400 + (h + 1) * 3_600 && h < 24);
        assert(text::decimal(d) == text::decimal(d) && text::decimal(h) == text::decimal(h));
    } else if secs >= 3_600 {
        let h = secs / 3_600;
        let m = (secs % 3_600) / 60;
        assert(h * 3_600 + m * 60 <= secs < h * 3_600 + (m + 1) * 60 && m < 60);
        assert(text::decimal(h) == text::decimal(h) && text::decimal(m) == text::decimal(m));
    } else if secs >= 60 {
        let m = secs / 60;
        assert(ago_text(secs) == text::decimal(m) + "m ago"@);
    }
}

/// A line of a diff is told by what it begins with: a plus is an addition and a minus a
/// removal, three of them name a file, and an at sign begins a hunk.
pub proof fn law_a_diff_line_is_told_by_its_beginning(line: Seq<char>)
    ensures
        ({
            let k = diff_line_kind(line);
            let three = |c: char| line.len() >= 3 && line[0] == c && line[1] == c && line[2] == c;
            &&& three('+') ==> k == DiffLineKind::FileAdd
            &&& three('-') ==> k == DiffLineKind::FileRemove
            &&& line.len() > 0 && line[0] == '@' ==> k == DiffLineKind::Hunk
            &&& line.len() > 0 && line[0] == '+' && !three('+') ==> k == DiffLineKind::Add
            &&& line.len() > 0 && line[0] == '-' && !three('-') ==> k == DiffLineKind::Remove
            &&& line.len() == 0 || (line[0] != '@' && line[0] != '+' && line[0] != '-') ==> k
                == DiffLineKind::Meta
        }),
{
    reveal_strlit("+++");
    reveal_strlit("---");
    reveal_strlit("@");
    reveal_strlit("+");
    reveal_strlit("-");
    assert("+++"@ =~= seq!['+', '+', '+']);
    assert("---"@ =~= seq!['-', '-', '-']);
    assert("@"@ =~= seq!['@']);
    assert("+"@ =~= seq!['+']);
    assert("-"@ =~= seq!['-']);
    if line.len() >= 3 {
        assert(line.take(3) =~= seq![line[0], line[1], line[2]]);
        assert(seq!['+', '+', '+'][0] == '+' && seq!['+', '+', '+'][1] == '+' && seq!['+', '+', '+'][2]
            == '+');
        assert(seq!['-', '-', '-'][0] == '-' && seq!['-', '-', '-'][1] == '-' && seq!['-', '-', '-'][2]
            == '-');
        assert(line.take(3)[0] == line[0] && line.take(3)[1] == line[1] && line.take(3)[2] == line[2]);
    }
    if line.len() >= 1 {
        assert(line.take(1) =~= seq![line[0]]);
        assert(line.take(1)[0] == line[0]);
        assert(seq!['@'][0] == '@' && seq!['+'][0] == '+' && seq!['-'][0] == '-');
    }
}

/// What a turn took is told by its figures: what came out, how fast, how long it took, and
/// what went in and came out by the provider's count; of a turn that made nothing nothing
/// is told.
#[verifier::rlimit(40)]
pub proof fn law_a_turn_is_told_by_its_figures(s: TurnStatsLine<Seq<char>>)
    ensures
        stats_text(s) is None <==> s.out_tokens == 0 && s.usage is None,
        stats_text(s) matches Some(t) ==> {
            &&& text::contains(t, text::decimal(s.out_tokens as nat) + " tok"@)
            &&& text::contains(t, s.tok_per_sec + " tok/s"@)
            &&& text::contains(t, s.elapsed_secs + "s"@)
            &&& s.gen_secs matches Some(g) ==> text::contains(t, g + "s generating"@)
            &&& s.ttft_secs matches Some(f) ==> text::contains(t, "ttft "@ + f)
            &&& s.usage matches Some((p, c)) ==> text::contains(
                t,
                text::decimal(p as nat) + "/"@ + text::decimal(c as nat),
            )
        },
{
    if stats_text(s) is Some {
        lemma_stats_head(s);
        lemma_stats_tail(s);
        let head = stats_head(s);
        let tail = stats_tail(s);
        let t = stats_text(s)->0;
        assert(t =~= head + tail);
        text::lemma_sum_holds(head, tail, text::decimal(s.out_tokens as nat) + " tok"@);
        text::lemma_sum_holds(head, tail, s.tok_per_sec + " tok/s"@);
        text::lemma_sum_holds(head, tail, s.elapsed_secs + "s"@);
        if let Some(g) = s.gen_secs {
            text::lemma_sum_holds(head, tail, g + "s generating"@);
        }
        if let Some(f) = s.ttft_secs {
            text::lemma_sum_holds(head, tail, "ttft "@ + f);
        }
        if let Some((p, c)) = s.usage {
            text::lemma_sum_holds(
                head,
                tail,
                text::decimal(p as nat) + "/"@ + text::decimal(c as nat),
            );
        }
    }
}

spec fn stats_head(s: TurnStatsLine<Seq<char>>) -> Seq<char> {
    "✓ "@ + text::decimal(s.out_tokens as nat) + " tok · "@ + s.tok_per_sec + " tok/s · "@
        + s.elapsed_secs + "s"@
}

spec fn made_part(gen: Option<Seq<char>>) -> Seq<char> {
    match gen {
        Some(g) => " ("@ + g + "s generating)"@,
        None => Seq::empty(),
    }
}

spec fn first_part(ttft: Option<Seq<char>>) -> Seq<char> {
    match ttft {
        Some(t) => " · ttft "@ + t + "s"@,
        None => Seq::empty(),
    }
}

spec fn used_part(s: TurnStatsLine<Seq<char>>) -> Seq<char> {
    match s.usage {
        Some((p, c)) => " · ctx "@ + text::decimal(p as nat) + " (in/out "@ + text::decimal(p as nat)
            + "/"@ + text::decimal(c as nat) + ", "@ + ratio_text(p, c) + ":1)"@ + counted(
            s.cached_tokens,
            " cached"@,
        ) + counted(s.reasoning_tokens, " reasoning"@),
        None => Seq::empty(),
    }
}

spec fn stats_tail(s: TurnStatsLine<Seq<char>>) -> Seq<char> {
    made_part(s.gen_secs) + first_part(s.ttft_secs) + used_part(s)
}

#[verifier::rlimit(40)]
proof fn lemma_stats_head(s: TurnStatsLine<Seq<char>>)
    ensures
        text::contains(stats_head(s), text::decimal(s.out_tokens as nat) + " tok"@),
        text::contains(stats_head(s), s.tok_per_sec + " tok/s"@),
        text::contains(stats_head(s), s.elapsed_secs + "s"@),
{
    broadcast use text::lemma_sum_holds;

    let a = text::decimal(s.out_tokens as nat) + " tok"@;
    let b = s.tok_per_sec + " tok/s"@;
    let c = s.elapsed_secs + "s"@;
    text::lemma_holds_itself(a);
    text::lemma_holds_itself(b);
    text::lemma_holds_itself(c);
    reveal_strlit(" tok · ");
    reveal_strlit(" tok");
    reveal_strlit(" · ");
    reveal_strlit(" tok/s · ");
    reveal_strlit(" tok/s");
    assert(" tok · "@ =~= " tok"@ + " · "@);
    assert(" tok/s · "@ =~= " tok/s"@ + " · "@);
    assert(stats_head(s) =~= "✓ "@ + a + " · "@ + b + " · "@ + c);
}

#[verifier::rlimit(40)]
proof fn lemma_more_holds(
    head: Seq<char>,
    i: Seq<char>,
    o: Seq<char>,
    ratio: Seq<char>,
    cached: Seq<char>,
    thought: Seq<char>,
)
    ensures
        text::contains(
            head + i + "/"@ + o + ", "@ + ratio + ":1)"@ + cached + thought,
            i + "/"@ + o,
        ),
{
    let both = i + "/"@ + o;
    assert(head + i + "/"@ + o =~= head + both);
    text::lemma_holds_itself(both);
    text::lemma_sum_holds(head, both, both);
    text::lemma_sum_holds(head + both, ", "@, both);
    text::lemma_sum_holds(head + both + ", "@, ratio, both);
    text::lemma_sum_holds(head + both + ", "@ + ratio, ":1)"@, both);
    text::lemma_sum_holds(head + both + ", "@ + ratio + ":1)"@, cached, both);
    text::lemma_sum_holds(head + both + ", "@ + ratio + ":1)"@ + cached, thought, both);
}

#[verifier::rlimit(40)]
proof fn lemma_made_part(g: Seq<char>)
    ensures
        text::contains(made_part(Some(g)), g + "s generating"@),
{
    let what = g + "s generating"@;
    text::lemma_holds_itself(what);
    reveal_strlit("s generating)");
    reveal_strlit("s generating");
    reveal_strlit(")");
    assert("s generating)"@ =~= "s generating"@ + ")"@);
    assert(made_part(Some(g)) =~= " ("@ + what + ")"@);
    text::lemma_part_holds(" ("@, what, ")"@, what);
}

#[verifier::rlimit(40)]
proof fn lemma_first_part(f: Seq<char>)
    ensures
        text::contains(first_part(Some(f)), "ttft "@ + f),
{
    let what = "ttft "@ + f;
    text::lemma_holds_itself(what);
    reveal_strlit(" · ttft ");
    reveal_strlit(" · ");
    reveal_strlit("ttft ");
    assert(" · ttft "@ =~= " · "@ + "ttft "@);
    assert(first_part(Some(f)) =~= " · "@ + what + "s"@);
    text::lemma_part_holds(" · "@, what, "s"@, what);
}

proof fn lemma_used_part(s: TurnStatsLine<Seq<char>>, p: u32, c: u32)
    requires
        s.usage == Some((p, c)),
    ensures
        text::contains(used_part(s), text::decimal(p as nat) + "/"@ + text::decimal(c as nat)),
{
    lemma_more_holds(
        " · ctx "@ + text::decimal(p as nat) + " (in/out "@,
        text::decimal(p as nat),
        text::decimal(c as nat),
        ratio_text(p, c),
        counted(s.cached_tokens, " cached"@),
        counted(s.reasoning_tokens, " reasoning"@),
    );
}

proof fn lemma_stats_tail(s: TurnStatsLine<Seq<char>>)
    ensures
        s.gen_secs matches Some(g) ==> text::contains(stats_tail(s), g + "s generating"@),
        s.ttft_secs matches Some(f) ==> text::contains(stats_tail(s), "ttft "@ + f),
        s.usage matches Some((p, c)) ==> text::contains(
            stats_tail(s),
            text::decimal(p as nat) + "/"@ + text::decimal(c as nat),
        ),
{
    let made = made_part(s.gen_secs);
    let first = first_part(s.ttft_secs);
    let used = used_part(s);
    if let Some(g) = s.gen_secs {
        lemma_made_part(g);
        text::lemma_sum_holds(made, first, g + "s generating"@);
        text::lemma_sum_holds(made + first, used, g + "s generating"@);
    }
    if let Some(f) = s.ttft_secs {
        lemma_first_part(f);
        text::lemma_sum_holds(made, first, "ttft "@ + f);
        text::lemma_sum_holds(made + first, used, "ttft "@ + f);
    }
    if let Some((p, c)) = s.usage {
        lemma_used_part(s, p, c);
        text::lemma_sum_holds(
            made + first,
            used,
            text::decimal(p as nat) + "/"@ + text::decimal(c as nat),
        );
    }
}

/// A cost is told as it is; that some of it is not known is told where that is so.
pub proof fn law_a_cost_is_told_as_it_is(cost: Seq<char>, n: nat)
    ensures
        cost_text(cost, false) == cost,
        text::contains(cost_text(cost, true), cost),
        n < 1_000 ==> count_text(n) == text::decimal(n),
{
    broadcast use text::lemma_sum_holds;

    text::lemma_holds_itself(cost);
}

} // verus!
