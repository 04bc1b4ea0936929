//! The levels of reasoning effort that can be picked for a model.
use crate::fuzzy;
use crate::fuzzy::{fuzzy_filter, lowercase};
use crate::json;
use crate::text;
use crate::text::{cat3, char_to_upper, chars_of, str_eq, string_of};
use vstd::prelude::*;

verus! {

/// One level that can be picked.
#[derive(Debug, Clone, PartialEq, Eq)]
pub struct EffortChoice<S = String> {
    /// What is sent to the model; `None` to let the model or its provider choose.
    pub value: Option<S>,
    /// The level's name.
    pub label: S,
    /// What is said of it.
    pub detail: S,
}

impl View for EffortChoice<String> {
    type V = EffortChoice<Seq<char>>;

    open spec fn view(&self) -> EffortChoice<Seq<char>> {
        EffortChoice {
            value: json::opt_view(self.value),
            label: self.label@,
            detail: self.detail@,
        }
    }
}

/// The views of a list of choices.
pub open spec fn choices(v: Seq<EffortChoice>) -> Seq<EffortChoice<Seq<char>>> {
    Seq::new(v.len(), |i: int| v[i]@)
}

/// The levels that have a name, highest first: what is sent, the name, what is said.
pub const LADDER: [(&'static str, &'static str, &'static str); 7] = [
    ("max", "Max", "deepest reasoning"),
    ("xhigh", "Extra high", ""),
    ("high", "High", ""),
    ("medium", "Medium", ""),
    ("low", "Low", ""),
    ("minimal", "Minimal", "fastest"),
    ("none", "None", "reasoning off"),
];

/// The levels of a model that nothing is known of, lowest first.
pub const FALLBACK: [&'static str; 4] = ["minimal", "low", "medium", "high"];

/// The choice that leaves the level to the model.
pub open spec fn default_choice() -> EffortChoice<Seq<char>> {
    EffortChoice {
        value: None,
        label: "Default"@,
        detail: "the model/provider default"@,
    }
}

/// Whether a level has a name.
pub open spec fn is_named(v: Seq<char>) -> bool {
    exists|k: int| 0 <= k < LADDER@.len() && (#[trigger] LADDER@[k]).0@ == v
}

/// The choice of the level at `k` of the ladder.
pub open spec fn named_choice(k: int) -> EffortChoice<Seq<char>> {
    EffortChoice { value: Some(LADDER@[k].0@), label: LADDER@[k].1@, detail: LADDER@[k].2@ }
}

/// How many of the first `n` values are `v`.
pub open spec fn count_of(values: Seq<Seq<char>>, v: Seq<char>, n: int) -> nat
    decreases n,
{
    if n <= 0 {
        0
    } else {
        count_of(values, v, n - 1) + (if values[n - 1] == v {
            1nat
        } else {
            0
        })
    }
}

/// The choices of the first `k` levels of the ladder, each as often as it is among the
/// values.
pub open spec fn named_choices(
    values: Seq<Seq<char>>,
    k: int,
) -> Seq<EffortChoice<Seq<char>>>
    decreases k,
{
    if k <= 0 {
        Seq::empty()
    } else {
        named_choices(values, k - 1) + Seq::new(
            count_of(values, LADDER@[k - 1].0@, values.len() as int),
            |i: int| named_choice(k - 1),
        )
    }
}

/// `v` with its first letter in upper case.
pub open spec fn capitalized(v: Seq<char>) -> Seq<char> {
    if v.len() > 0 {
        v.update(0, text::upper_char(v[0]))
    } else {
        v
    }
}

/// The choice of a level without a name.
pub open spec fn other_choice(v: Seq<char>) -> EffortChoice<Seq<char>> {
    EffortChoice { value: Some(v), label: capitalized(v), detail: Seq::empty() }
}

/// The choices of the levels without a name, from `from` on, the last first.
pub open spec fn other_choices(
    values: Seq<Seq<char>>,
    from: int,
) -> Seq<EffortChoice<Seq<char>>>
    decreases values.len() - from,
{
    if from < 0 || from >= values.len() {
        Seq::empty()
    } else if is_named(values[from]) {
        other_choices(values, from + 1)
    } else {
        other_choices(values, from + 1).push(other_choice(values[from]))
    }
}

/// The choices for a model with these levels, which are given lowest first: to leave it
/// to the model, then the levels with a name from the highest down, then the others from
/// the last up.
pub open spec fn all_choices(values: Seq<Seq<char>>) -> Seq<EffortChoice<Seq<char>>> {
    seq![default_choice()] + named_choices(values, LADDER@.len() as int) + other_choices(values, 0)
}

/// The levels of a model that nothing is known of.
pub open spec fn fallback() -> Seq<Seq<char>> {
    Seq::new(FALLBACK@.len(), |i: int| FALLBACK@[i]@)
}

fn has_name(v: &str) -> (r: bool)
    ensures
        r == is_named(v@),
{
    for k in 0..LADDER.len()
        invariant
            forall|j: int| 0 <= j < k ==> (#[trigger] LADDER@[j]).0@ != v@,
    {
        if str_eq(LADDER[k].0, v) {
            assert(LADDER@[k as int].0@ == v@);
            return true;
        }
    }
    false
}

fn capitalize(v: &str) -> (r: String)
    ensures
        r@ == capitalized(v@),
{
    let mut chars = chars_of(v);
    if chars.len() > 0 {
        let c = char_to_upper(chars[0]);
        chars.set(0, c);
    }
    string_of(&chars)
}

/// The choices for a model with these levels.
pub fn choices_from(values: &Vec<String>) -> (r: Vec<EffortChoice>)
    ensures
        choices(r@) == all_choices(text::views(values@)),
{
    let ghost vals = text::views(values@);
    let mut out: Vec<EffortChoice> = Vec::new();
    out.push(
        EffortChoice {
            value: None,
            label: "Default".to_string(),
            detail: "the model/provider default".to_string(),
        },
    );
    let ghost first = seq![default_choice()];
    assert(choices(out@) =~= first + named_choices(vals, 0));
    for k in 0..LADDER.len()
        invariant
            vals == text::views(values@),
            choices(out@) == first + named_choices(vals, k as int),
    {
        let ghost name = LADDER@[k as int].0@;
        let ghost above = choices(out@);
        assert(above =~= above + Seq::new(0, |j: int| named_choice(k as int)));
        for i in 0..values.len()
            invariant
                k < LADDER@.len(),
                vals == text::views(values@),
                name == LADDER@[k as int].0@,
                choices(out@) == above + Seq::new(
                    count_of(vals, name, i as int),
                    |j: int| named_choice(k as int),
                ),
        {
            assert(vals[i as int] == values@[i as int]@);
            if str_eq(LADDER[k].0, values[i].as_str()) {
                let ghost before = choices(out@);
                let c = EffortChoice {
                    value: Some(values[i].clone()),
                    label: LADDER[k].1.to_string(),
                    detail: LADDER[k].2.to_string(),
                };
                out.push(c);
                assert(c@ == named_choice(k as int));
                assert(choices(out@) =~= before.push(c@));
                assert(choices(out@) =~= above + Seq::new(
                    count_of(vals, name, i + 1),
                    |j: int| named_choice(k as int),
                ));
            }
        }
        assert(choices(out@) =~= first + named_choices(vals, k + 1));
    }
    let ghost above = choices(out@);
    let mut i: usize = values.len();
    assert(above + other_choices(vals, i as int) =~= above);
    while i > 0
        invariant
            i <= values@.len(),
            vals == text::views(values@),
            choices(out@) == above + other_choices(vals, i as int),
        decreases i,
    {
        i = i - 1;
        assert(vals[i as int] == values@[i as int]@);
        if !has_name(values[i].as_str()) {
            let ghost before = choices(out@);
            let c = EffortChoice {
                value: Some(values[i].clone()),
                label: capitalize(values[i].as_str()),
                detail: String::new(),
            };
            out.push(c);
            assert(c@ == other_choice(vals[i as int]));
            assert(choices(out@) =~= before.push(c@));
            assert(choices(out@) =~= above + other_choices(vals, i as int));
        }
    }
    out
}

/// The choices for a model whose levels the catalogue gives, lowest first; for one that
/// it does not know, those that every backend has.
pub fn effort_choices(levels: Option<Vec<String>>) -> (r: Vec<EffortChoice>)
    ensures
        choices(r@) == all_choices(
            match levels {
                Some(l) => text::views(l@),
                None => fallback(),
            },
        ),
{
    match levels {
        Some(l) => choices_from(&l),
        None => {
            let mut l: Vec<String> = Vec::new();
            for i in 0..FALLBACK.len()
                invariant
                    text::views(l@) == fallback().take(i as int),
            {
                let ghost before = text::views(l@);
                l.push(FALLBACK[i].to_string());
                assert(text::views(l@) =~= before.push(FALLBACK@[i as int]@));
                assert(text::views(l@) =~= fallback().take(i + 1));
            }
            assert(fallback().take(fallback().len() as int) =~= fallback());
            choices_from(&l)
        },
    }
}

/// What a query is compared with, before it is brought to lower case: the choice's
/// label, its value and its detail.
pub open spec fn searched(c: EffortChoice<Seq<char>>) -> Seq<char> {
    c.label + " "@ + (match c.value {
        Some(v) => v,
        None => "default"@,
    }) + " "@ + c.detail
}

/// What a query is compared with, before it is brought to lower case.
pub fn search_text(c: &EffortChoice) -> (r: String)
    ensures
        r@ == searched(c@),
{
    let mut s = match &c.value {
        Some(v) => cat3(c.label.as_str(), " ", v.as_str()),
        None => cat3(c.label.as_str(), " ", "default"),
    };
    s.append(" ");
    s.append(c.detail.as_str());
    s
}

/// What a query is compared with.
pub fn effort_choice_haystack(c: &EffortChoice) -> (r: String)
    ensures
        r@ == fuzzy::unicode_lower(searched(c@)),
{
    lowercase(search_text(c).as_str())
}

/// The numbers of the choices that match a query.
pub fn filter_effort_choices(haystacks: &Vec<String>, query: &str) -> (r: Vec<usize>)
    ensures
        r@ == (if text::trim(query@).len() == 0 {
            fuzzy::matching(text::views(haystacks@), Seq::empty())
        } else {
            fuzzy::matching(
                text::views(haystacks@),
                fuzzy::unicode_lower(text::trim(query@)),
            )
        }),
{
    fuzzy_filter(haystacks, query)
}

/// The level that a provider applies where none is set, as its documentation says.
/// `vendor` is the provider that is spoken to by the Messages API.
pub open spec fn documented_default(provider: Seq<char>, vendor: Seq<char>) -> Option<Seq<char>> {
    if provider == "deepseek"@ {
        Some("high"@)
    } else if provider == "openai"@ {
        Some("medium"@)
    } else if provider == vendor {
        Some("high"@)
    } else {
        None
    }
}

/// The level that a provider applies where none is set; `None` where its documentation
/// names no single one. `vendor` is the provider that is spoken to by the Messages API.
pub fn default_effort(provider: &str, vendor: &str) -> (r: Option<&'static str>)
    ensures
        crate::config::opt_str_view(r) == documented_default(provider@, vendor@),
{
    if str_eq(provider, "deepseek") {
        Some("high")
    } else if str_eq(provider, "openai") {
        Some("medium")
    } else if str_eq(provider, vendor) {
        Some("high")
    } else {
        None
    }
}

/// What `/effort` picks for an argument: to leave the level to the model, or the first
/// choice with that value or that label, whatever the case of the letters.
pub open spec fn picks(arg: Seq<char>, c: EffortChoice<Seq<char>>) -> bool {
    if text::lower(arg) == "default"@ || text::lower(arg) == "reset"@ {
        c.value is None
    } else {
        (c.value matches Some(v) && text::lower(v) == text::lower(arg)) || text::lower(c.label)
            == text::lower(arg)
    }
}

/// The number of the first choice that an argument picks, from `from` on.
pub open spec fn picked(
    arg: Seq<char>,
    list: Seq<EffortChoice<Seq<char>>>,
    from: int,
) -> Option<int>
    decreases list.len() - from,
{
    if from < 0 || from >= list.len() {
        None
    } else if picks(arg, list[from]) {
        Some(from)
    } else {
        picked(arg, list, from + 1)
    }
}

fn picks_choice(arg: &str, c: &EffortChoice) -> (r: bool)
    ensures
        r == picks(arg@, c@),
{
    let low = text::str_lower(arg);
    if str_eq(low.as_str(), "default") || str_eq(low.as_str(), "reset") {
        return c.value.is_none();
    }
    if let Some(v) = &c.value {
        if text::str_eq_ignore_case(v.as_str(), arg) {
            return true;
        }
    }
    text::str_eq_ignore_case(c.label.as_str(), arg)
}

/// The choice that an argument of `/effort` picks.
pub fn pick<'a>(arg: &str, list: &'a Vec<EffortChoice>) -> (r: Option<&'a EffortChoice>)
    ensures
        match picked(arg@, choices(list@), 0) {
            Some(i) => r matches Some(c) && c@ == choices(list@)[i],
            None => r is None,
        },
{
    let ghost all = choices(list@);
    for i in 0..list.len()
        invariant
            all == choices(list@),
            picked(arg@, all, 0) == picked(arg@, all, i as int),
    {
        assert(all[i as int] == list@[i as int]@);
        if picks_choice(arg, &list[i]) {
            return Some(&list[i]);
        }
    }
    None
}

proof fn lemma_other_choices(values: Seq<Seq<char>>, from: int)
    requires
        0 <= from,
    ensures
        forall|i: int|
            0 <= i < other_choices(values, from).len() ==> (#[trigger] other_choices(
                values,
                from,
            )[i]).value is Some,
        forall|k: int|
            from <= k < values.len() && !is_named(#[trigger] values[k]) ==> other_choices(
                values,
                from,
            ).contains(other_choice(values[k])),
    decreases values.len() - from,
{
    if from < values.len() {
        lemma_other_choices(values, from + 1);
        let rest = other_choices(values, from + 1);
        let whole = other_choices(values, from);
        assert forall|k: int| from <= k < values.len() && !is_named(#[trigger] values[k]) implies
            whole.contains(other_choice(values[k])) by {
            if k == from {
                assert(whole[rest.len() as int] == other_choice(values[k]));
            } else {
                assert(rest.contains(other_choice(values[k])));
                let j = choose|j: int| 0 <= j < rest.len() && rest[j] == other_choice(values[k]);
                assert(whole[j] == rest[j]);
            }
        }
    }
}

/// The first choice is always to leave the level to the model, and a level that has no
/// name yet can be picked all the same.
pub proof fn law_unnamed_levels_can_be_picked(values: Seq<Seq<char>>, k: int)
    requires
        0 <= k < values.len(),
        !is_named(values[k]),
    ensures
        all_choices(values)[0] == default_choice(),
        all_choices(values).contains(other_choice(values[k])),
{
    lemma_other_choices(values, 0);
    let others = other_choices(values, 0);
    let j = choose|j: int| 0 <= j < others.len() && others[j] == other_choice(values[k]);
    let before = (seq![default_choice()] + named_choices(values, LADDER@.len() as int)).len();
    assert(all_choices(values)[before + j] == other_choice(values[k]));
}

/// The names, letter by letter.
proof fn lemma_names()
    ensures
        "default"@.len() == 7,
        "default"@ == seq!['d', 'e', 'f', 'a', 'u', 'l', 't'],
        "reset"@.len() == 5,
        "reset"@ == seq!['r', 'e', 's', 'e', 't'],
        "deepseek"@.len() == 8,
        "deepseek"@ == seq!['d', 'e', 'e', 'p', 's', 'e', 'e', 'k'],
        "openai"@.len() == 6,
        "openai"@ == seq!['o', 'p', 'e', 'n', 'a', 'i'],
        "max"@.len() == 3,
        "max"@ == seq!['m', 'a', 'x'],
        "xhigh"@.len() == 5,
        "xhigh"@ == seq!['x', 'h', 'i', 'g', 'h'],
        "high"@.len() == 4,
        "high"@ == seq!['h', 'i', 'g', 'h'],
        "medium"@.len() == 6,
        "medium"@ == seq!['m', 'e', 'd', 'i', 'u', 'm'],
        "low"@.len() == 3,
        "low"@ == seq!['l', 'o', 'w'],
        "minimal"@.len() == 7,
        "minimal"@ == seq!['m', 'i', 'n', 'i', 'm', 'a', 'l'],
        "none"@.len() == 4,
        "none"@ == seq!['n', 'o', 'n', 'e'],
{
    reveal_strlit("default");
    reveal_strlit("reset");
    reveal_strlit("deepseek");
    reveal_strlit("openai");
    reveal_strlit("max");
    reveal_strlit("xhigh");
    reveal_strlit("high");
    reveal_strlit("medium");
    reveal_strlit("low");
    reveal_strlit("minimal");
    reveal_strlit("none");
    assert("default"@ =~= seq!['d', 'e', 'f', 'a', 'u', 'l', 't']);
    assert("reset"@ =~= seq!['r', 'e', 's', 'e', 't']);
    assert("deepseek"@ =~= seq!['d', 'e', 'e', 'p', 's', 'e', 'e', 'k']);
    assert("openai"@ =~= seq!['o', 'p', 'e', 'n', 'a', 'i']);
    assert("max"@ =~= seq!['m', 'a', 'x']);
    assert("xhigh"@ =~= seq!['x', 'h', 'i', 'g', 'h']);
    assert("high"@ =~= seq!['h', 'i', 'g', 'h']);
    assert("medium"@ =~= seq!['m', 'e', 'd', 'i', 'u', 'm']);
    assert("low"@ =~= seq!['l', 'o', 'w']);
    assert("minimal"@ =~= seq!['m', 'i', 'n', 'i', 'm', 'a', 'l']);
    assert("none"@ =~= seq!['n', 'o', 'n', 'e']);
}

/// The choice that an argument picks is the first that it names, by its value or by its
/// label, whatever the case of the letters; to go back to the default picks the first that
/// leaves the level to the model. Where it names none, none is picked.
pub proof fn law_an_argument_picks_what_it_names(
    arg: Seq<char>,
    list: Seq<EffortChoice<Seq<char>>>,
    i: int,
)
    requires
        0 <= i < list.len(),
    ensures
        ({
            let back = text::lower(arg) == "default"@ || text::lower(arg) == "reset"@;
            let named = |c: EffortChoice<Seq<char>>|
                if back {
                    c.value is None
                } else {
                    (c.value matches Some(v) && text::lower(v) == text::lower(arg)) || text::lower(
                        c.label,
                    ) == text::lower(arg)
                };
            &&& named(list[i]) ==> (picked(arg, list, 0) matches Some(k) && 0 <= k <= i && named(
                list[k],
            ))
            &&& picked(arg, list, 0) matches Some(k) ==> 0 <= k < list.len() && named(list[k])
                && forall|j: int| 0 <= j < k ==> !named(#[trigger] list[j])
        }),
        list[i].value matches Some(v) ==> (text::lower(v) != "default"@ && text::lower(v) != "reset"@
            ==> picked(v, list, 0) is Some),
{
    lemma_picked(arg, list, 0);
    if let Some(v) = list[i].value {
        lemma_picked(v, list, 0);
    }
}

proof fn lemma_picked(arg: Seq<char>, list: Seq<EffortChoice<Seq<char>>>, from: int)
    requires
        0 <= from,
    ensures
        match picked(arg, list, from) {
            Some(k) => from <= k < list.len() && picks(arg, list[k]) && forall|j: int|
                from <= j < k ==> !picks(arg, #[trigger] list[j]),
            None => forall|j: int| from <= j < list.len() ==> !picks(arg, #[trigger] list[j]),
        },
    decreases list.len() - from,
{
    if from < list.len() && !picks(arg, list[from]) {
        lemma_picked(arg, list, from + 1);
    }
}

/// Every level that a model has can be chosen, and what is chosen by any choice but the
/// first is a level that the model has.
pub proof fn law_the_choices_are_the_levels(values: Seq<Seq<char>>, k: int)
    ensures
        0 <= k < values.len() ==> exists|i: int|
            0 < i < all_choices(values).len() && (#[trigger] all_choices(values)[i]).value == Some(
                values[k],
            ),
        forall|i: int|
            0 < i < all_choices(values).len() ==> ((
            #[trigger] all_choices(values)[i]).value matches Some(v) && values.contains(v)),
        all_choices(values).len() > 0,
        all_choices(values)[0].value is None,
{
    let named = named_choices(values, LADDER@.len() as int);
    let others = other_choices(values, 0);
    lemma_named_choices(values, LADDER@.len() as int);
    lemma_others_are_values(values, 0);
    assert forall|i: int| 0 < i < all_choices(values).len() implies ((
    #[trigger] all_choices(values)[i]).value matches Some(v) && values.contains(v)) by {
        if i <= named.len() {
            assert(all_choices(values)[i] == named[i - 1]);
        } else {
            assert(all_choices(values)[i] == others[i - 1 - named.len()]);
        }
    }
    if 0 <= k < values.len() {
        if is_named(values[k]) {
            let l = choose|l: int| 0 <= l < LADDER@.len() && (#[trigger] LADDER@[l]).0@ == values[k];
            lemma_counted(values, values[k], values.len() as int, k);
            lemma_named_holds(values, LADDER@.len() as int, l);
            let j = choose|j: int| 0 <= j < named.len() && named[j] == named_choice(l);
            assert(all_choices(values)[1 + j] == named[j]);
        } else {
            law_unnamed_levels_can_be_picked(values, k);
            let i = choose|i: int|
                0 <= i < all_choices(values).len() && all_choices(values)[i] == other_choice(
                    values[k],
                );
            assert(all_choices(values)[i].value == Some(values[k]));
        }
    }
}

proof fn lemma_counted(values: Seq<Seq<char>>, v: Seq<char>, n: int, k: int)
    requires
        0 <= k < n <= values.len(),
        values[k] == v,
    ensures
        count_of(values, v, n) > 0,
    decreases n,
{
    if k < n - 1 {
        lemma_counted(values, v, n - 1, k);
    }
}

proof fn lemma_count_is_of_values(values: Seq<Seq<char>>, v: Seq<char>, n: int)
    requires
        n <= values.len(),
        count_of(values, v, n) > 0,
    ensures
        values.contains(v),
    decreases n,
{
    if n > 0 && values[n - 1] != v {
        lemma_count_is_of_values(values, v, n - 1);
    } else if n > 0 {
        assert(values[n - 1] == v);
    }
}

proof fn lemma_named_choices(values: Seq<Seq<char>>, k: int)
    requires
        k <= LADDER@.len(),
    ensures
        forall|i: int|
            0 <= i < named_choices(values, k).len() ==> ((
            #[trigger] named_choices(values, k)[i]).value matches Some(v) && values.contains(v)),
    decreases k,
{
    if k > 0 {
        lemma_named_choices(values, k - 1);
        let v = LADDER@[k - 1].0@;
        if count_of(values, v, values.len() as int) > 0 {
            lemma_count_is_of_values(values, v, values.len() as int);
        }
    }
}

proof fn lemma_named_holds(values: Seq<Seq<char>>, k: int, l: int)
    requires
        0 <= l < k <= LADDER@.len(),
        count_of(values, LADDER@[l].0@, values.len() as int) > 0,
    ensures
        named_choices(values, k).contains(named_choice(l)),
    decreases k,
{
    let before = named_choices(values, k - 1);
    let all = named_choices(values, k);
    if l == k - 1 {
        assert(all[before.len() as int] == named_choice(l));
    } else {
        lemma_named_holds(values, k - 1, l);
        let j = choose|j: int| 0 <= j < before.len() && before[j] == named_choice(l);
        assert(all[j] == named_choice(l));
    }
}

proof fn lemma_others_are_values(values: Seq<Seq<char>>, from: int)
    requires
        0 <= from,
    ensures
        forall|i: int|
            0 <= i < other_choices(values, from).len() ==> ((
            #[trigger] other_choices(values, from)[i]).value matches Some(v) && values.contains(v)),
    decreases values.len() - from,
{
    if from < values.len() {
        lemma_others_are_values(values, from + 1);
        assert(values.contains(values[from]));
    }
}

/// A level that a provider is said to apply where none is set is one of those that have a
/// name, and it is so for the documented providers alone.
pub proof fn law_a_documented_level_has_a_name(provider: Seq<char>, vendor: Seq<char>)
    ensures
        documented_default(provider, vendor) matches Some(v) ==> is_named(v),
        documented_default(provider, vendor) is Some <==> provider == vendor || provider
            == "openai"@ || provider == "deepseek"@,
        documented_default("openai"@, vendor) != documented_default("deepseek"@, vendor),
        vendor != "openai"@ ==> documented_default(vendor, vendor) == documented_default(
            "deepseek"@,
            vendor,
        ),
{
    lemma_names();
    assert(LADDER@[2].0@ == "high"@);
    assert(LADDER@[3].0@ == "medium"@);
    assert("high"@.len() != "medium"@.len());
}

/// A choice is found by its label, by the value that it sets and by what is said of it.
pub proof fn law_a_choice_is_searched_by_all_of_it(c: EffortChoice<Seq<char>>)
    ensures
        text::contains(searched(c), c.label),
        c.value matches Some(v) ==> text::contains(searched(c), v),
        text::contains(searched(c), c.detail),
{
    let value = match c.value {
        Some(v) => v,
        None => "default"@,
    };
    text::lemma_holds_itself(c.label);
    text::lemma_holds_itself(value);
    text::lemma_holds_itself(c.detail);
    let a = c.label + " "@;
    let b = a + value;
    text::lemma_sum_holds(c.label, " "@, c.label);
    text::lemma_sum_holds(a, value, c.label);
    text::lemma_sum_holds(a, value, value);
    text::lemma_sum_holds(b, " "@, c.label);
    text::lemma_sum_holds(b, " "@, value);
    text::lemma_sum_holds(b + " "@, c.detail, c.label);
    text::lemma_sum_holds(b + " "@, c.detail, value);
    text::lemma_sum_holds(b + " "@, c.detail, c.detail);
}

proof fn lemma_upper(c: char)
    requires
        !(0x61 <= c as int <= 0x7A),
    ensures
        text::upper_char(c) == c,
{
}

/// Only the first letter of a level changes when it is shown.
pub proof fn law_only_the_first_letter_changes(v: Seq<char>, i: int)
    ensures
        capitalized(v).len() == v.len(),
        0 < i < v.len() ==> capitalized(v)[i] == v[i],
        v.len() > 0 && 0x61 <= v[0] as int <= 0x7A ==> capitalized(v)[0] as int == v[0] as int - 32,
        v.len() > 0 && !(0x61 <= v[0] as int <= 0x7A) ==> capitalized(v) == v,
{
    if v.len() > 0 && !(0x61 <= v[0] as int <= 0x7A) {
        lemma_upper(v[0]);
        assert(v.update(0, v[0]) =~= v);
        assert(capitalized(v) =~= v);
    }
}

} // verus!
