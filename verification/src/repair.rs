//! Mending a history that an interrupted turn left behind: every call that an assistant
//! message asks for gets an answer, because strict servers reject a history without.
use crate::chat;
use crate::chat::{ChatMessage, MessageView, Role, ToolCall};
use crate::text::{str_eq, str_trim};
use crate::text;
use vstd::prelude::*;

verus! {

/// The number of answers that `m` begins with.
pub open spec fn leading_answers(m: Seq<MessageView>) -> nat
    decreases m.len(),
{
    if m.len() > 0 && m[0].role == Role::Tool {
        1 + leading_answers(m.drop_first())
    } else {
        0
    }
}

/// Whether one of `answers` answers the call `id`.
pub open spec fn answered(answers: Seq<MessageView>, id: Seq<char>) -> bool {
    exists|i: int| 0 <= i < answers.len() && (#[trigger] answers[i]).tool_call_id == Some(id)
}

/// Stub answers for the calls that none of `answers` answers, in the order of the calls.
pub open spec fn stubs(
    asked: Seq<ToolCall<Seq<char>>>,
    answers: Seq<MessageView>,
) -> Seq<MessageView>
    decreases asked.len(),
{
    if asked.len() == 0 {
        Seq::empty()
    } else {
        let rest = stubs(asked.drop_last(), answers);
        if answered(answers, asked.last().id) {
            rest
        } else {
            rest.push(chat::tool_result(asked.last().id, "[interrupted]"@))
        }
    }
}

/// The calls that a message asks for, where it is an assistant message that has a list
/// of them.
pub open spec fn asked_by(m: MessageView) -> Option<Seq<ToolCall<Seq<char>>>> {
    if m.role == Role::Assistant {
        m.tool_calls
    } else {
        None
    }
}

/// `m` with a stub answer for every call that the answers right after it leave open.
pub open spec fn repaired(m: Seq<MessageView>) -> Seq<MessageView>
    decreases m.len(),
    via repaired_decreases
{
    if m.len() == 0 {
        Seq::empty()
    } else {
        match asked_by(m[0]) {
            Some(asked) => {
                let n = leading_answers(m.drop_first());
                let answers = m.drop_first().take(n as int);
                seq![m[0]] + answers + stubs(asked, answers) + repaired(
                    m.drop_first().skip(n as int),
                )
            },
            None => seq![m[0]] + repaired(m.drop_first()),
        }
    }
}

#[via_fn]
proof fn repaired_decreases(m: Seq<MessageView>) {
    lemma_leading_answers(m.drop_first());
}

pub proof fn lemma_leading_answers(m: Seq<MessageView>)
    ensures
        leading_answers(m) <= m.len(),
        forall|i: int| 0 <= i < leading_answers(m) ==> (#[trigger] m[i]).role == Role::Tool,
        leading_answers(m) < m.len() ==> m[leading_answers(m) as int].role != Role::Tool,
    decreases m.len(),
{
    if m.len() > 0 && m[0].role == Role::Tool {
        lemma_leading_answers(m.drop_first());
        assert forall|i: int| 0 <= i < leading_answers(m) implies (#[trigger] m[i]).role
            == Role::Tool by {
            if i > 0 {
                assert(m[i] == m.drop_first()[i - 1]);
            }
        }
    }
}

/// Where the answers that begin at `from` end.
fn end_of_answers(list: &Vec<ChatMessage>, from: usize) -> (r: usize)
    requires
        from <= list@.len(),
    ensures
        from <= r <= list@.len(),
        r == from + leading_answers(chat::messages(list@).skip(from as int)),
{
    let ghost m = chat::messages(list@);
    let mut end: usize = from;
    while end < list.len() && matches!(list[end].role, Role::Tool)
        invariant
            from <= end <= list@.len(),
            m == chat::messages(list@),
            leading_answers(m.skip(from as int)) == end - from + leading_answers(
                m.skip(end as int),
            ),
        decreases list@.len() - end,
    {
        assert(m.skip(end as int).drop_first() =~= m.skip(end + 1));
        end = end + 1;
    }
    end
}

/// Whether one of the messages from `from` to `to` answers the call `id`.
fn is_answered(list: &Vec<ChatMessage>, from: usize, to: usize, id: &str) -> (r: bool)
    requires
        from <= to <= list@.len(),
    ensures
        r == answered(chat::messages(list@).subrange(from as int, to as int), id@),
{
    let ghost answers = chat::messages(list@).subrange(from as int, to as int);
    let mut i: usize = from;
    while i < to
        invariant
            from <= i <= to <= list@.len(),
            answers == chat::messages(list@).subrange(from as int, to as int),
            forall|j: int| 0 <= j < i - from ==> (#[trigger] answers[j]).tool_call_id != Some(id@),
        decreases to - i,
    {
        assert(answers[i - from] == list@[i as int]@);
        if let Some(tid) = &list[i].tool_call_id {
            if str_eq(tid.as_str(), id) {
                return true;
            }
        }
        i = i + 1;
    }
    false
}

/// The stub answers for the calls of the message at `idx` that the messages up to `end`
/// leave open.
fn missing_answers(list: &Vec<ChatMessage>, idx: usize, end: usize) -> (r: Vec<ChatMessage>)
    requires
        idx < end <= list@.len(),
        list@[idx as int].tool_calls is Some,
    ensures
        chat::messages(r@) == stubs(
            list@[idx as int]@.tool_calls->0,
            chat::messages(list@).subrange(idx + 1, end as int),
        ),
{
    let mut out: Vec<ChatMessage> = Vec::new();
    let ghost asked = list@[idx as int]@.tool_calls->0;
    let ghost answers = chat::messages(list@).subrange(idx + 1, end as int);
    assert(chat::messages(out@) =~= Seq::empty());
    match &list[idx].tool_calls {
        Some(wanted) => {
            assert(asked.take(0) =~= Seq::empty());
            for k in 0..wanted.len()
                invariant
                    idx < end <= list@.len(),
                    asked == chat::calls(wanted@),
                    answers == chat::messages(list@).subrange(idx + 1, end as int),
                    chat::messages(out@) == stubs(asked.take(k as int), answers),
            {
                assert(asked.take(k + 1).drop_last() =~= asked.take(k as int));
                if !is_answered(list, idx + 1, end, wanted[k].id.as_str()) {
                    let ghost before = chat::messages(out@);
                    out.push(ChatMessage::tool_result(wanted[k].id.as_str(), "[interrupted]"));
                    assert(chat::messages(out@) =~= before.push(
                        chat::tool_result(asked[k as int].id, "[interrupted]"@),
                    ));
                }
            }
            assert(asked.take(asked.len() as int) =~= asked);
        },
        None => {},
    }
    out
}

/// Mend a history: after every assistant message that asks for calls, add a stub answer
/// for each call that the answers right after it leave open. The whole history is gone
/// through, because an older turn may have been interrupted too.
pub fn repair_dangling_tool_calls(list: &mut Vec<ChatMessage>)
    ensures
        chat::messages(final(list)@) == repaired(chat::messages(old(list)@)),
{
    let ghost start = chat::messages(list@);
    let mut idx: usize = 0;
    assert(start.take(0) + repaired(start.skip(0)) =~= repaired(start)) by {
        assert(start.skip(0) =~= start);
    }
    while idx < list.len()
        invariant
            idx <= list@.len(),
            repaired(start) == chat::messages(list@).take(idx as int) + repaired(
                chat::messages(list@).skip(idx as int),
            ),
        decreases list@.len() - idx,
    {
        let ghost m = chat::messages(list@);
        let ghost rest = m.skip(idx as int);
        let ghost head = m.take(idx as int);
        assert(rest[0] == list@[idx as int]@);
        assert(rest.drop_first() =~= m.skip(idx + 1));
        let asks: bool = matches!(list[idx].role, Role::Assistant)
            && list[idx].tool_calls.is_some();
        if !asks {
            idx = idx + 1;
            proof {
                assert(head + (seq![rest[0]] + repaired(rest.drop_first())) =~= m.take(
                    idx as int,
                ) + repaired(rest.drop_first()));
            }
        } else {
            let end: usize = end_of_answers(list, idx + 1);
            let mut missing = missing_answers(list, idx, end);
            let ghost added = chat::messages(missing@);
            let count: usize = missing.len();
            let mut tail = list.split_off(end);
            let ghost kept = chat::messages(list@);
            let ghost later = chat::messages(tail@);
            proof {
                assert(kept =~= m.take(end as int));
                assert(later =~= m.skip(end as int));
            }
            list.append(&mut missing);
            assert(chat::messages(list@) =~= kept + added);
            idx = list.len();
            list.append(&mut tail);
            proof {
                let now = chat::messages(list@);
                assert(now =~= kept + added + later);
                let n = leading_answers(rest.drop_first());
                let answers = rest.drop_first().take(n as int);
                assert(answers =~= m.subrange(head.len() + 1int, end as int));
                assert(rest.drop_first().skip(n as int) =~= later);
                assert(now.take(idx as int) =~= head + (seq![rest[0]] + answers + added));
                assert(now.skip(idx as int) =~= later);
                assert(head + (seq![rest[0]] + answers + added + repaired(later)) =~= now.take(
                    idx as int,
                ) + repaired(later));
            }
        }
    }
    proof {
        let m = chat::messages(list@);
        assert(m.skip(idx as int) =~= Seq::empty());
        assert(m.take(idx as int) =~= m);
        assert(m + Seq::empty() =~= m);
    }
}

/// `msg` with a placeholder for its text where it has neither text nor calls: some
/// servers reject a history that holds such a message.
pub open spec fn with_content(msg: MessageView) -> MessageView {
    let blank = match msg.content {
        Some(c) => text::trim(c).len() == 0,
        None => true,
    };
    if blank && msg.tool_calls is None {
        MessageView { content: Some("(no response)"@), ..msg }
    } else {
        msg
    }
}

/// Give an assistant message that has neither text nor calls a placeholder for its text.
pub fn ensure_assistant_has_content(msg: &mut ChatMessage)
    ensures
        final(msg)@ == with_content(old(msg)@),
{
    let blank: bool = match &msg.content {
        Some(c) => str_trim(c.as_str()).as_str().is_empty(),
        None => true,
    };
    if blank && msg.tool_calls.is_none() {
        msg.content = Some("(no response)".to_string());
    }
}

// ---------------------------------------------------------------------------
// Laws
// ---------------------------------------------------------------------------

/// Whether every call that `m` asks for is answered in the answers right after it.
pub open spec fn all_answered(m: Seq<MessageView>) -> bool {
    forall|i: int, k: int|
        #![trigger m[i], asked_by(m[i])->0[k]]
        0 <= i < m.len() && asked_by(m[i]) is Some && 0 <= k < asked_by(m[i])->0.len()
            ==> answered(
            m.skip(i + 1).take(leading_answers(m.skip(i + 1)) as int),
            asked_by(m[i])->0[k].id,
        )
}

proof fn lemma_stubs_answer(asked: Seq<ToolCall<Seq<char>>>, answers: Seq<MessageView>)
    ensures
        forall|k: int|
            0 <= k < asked.len() ==> answered(
                answers + stubs(asked, answers),
                (#[trigger] asked[k]).id,
            ),
        forall|j: int|
            0 <= j < stubs(asked, answers).len() ==> (#[trigger] stubs(asked, answers)[j]).role
                == Role::Tool,
    decreases asked.len(),
{
    if asked.len() > 0 {
        let less = asked.drop_last();
        lemma_stubs_answer(less, answers);
        let before = answers + stubs(less, answers);
        let after = answers + stubs(asked, answers);
        assert forall|k: int| 0 <= k < asked.len() implies answered(
            after,
            (#[trigger] asked[k]).id,
        ) by {
            let id = asked[k].id;
            if k < less.len() {
                assert(less[k] == asked[k]);
                assert(answered(before, less[k].id));
                let i = choose|i: int|
                    0 <= i < before.len() && (#[trigger] before[i]).tool_call_id == Some(id);
                assert(after[i] == before[i]);
            } else if answered(answers, id) {
                let i = choose|i: int|
                    0 <= i < answers.len() && (#[trigger] answers[i]).tool_call_id == Some(id);
                assert(after[i] == answers[i]);
            } else {
                assert(after[after.len() - 1].tool_call_id == Some(id));
            }
        }
    }
}

proof fn lemma_leading_answers_of(answers: Seq<MessageView>, rest: Seq<MessageView>)
    requires
        forall|i: int| 0 <= i < answers.len() ==> (#[trigger] answers[i]).role == Role::Tool,
        rest.len() > 0 ==> rest[0].role != Role::Tool,
    ensures
        leading_answers(answers + rest) == answers.len(),
    decreases answers.len(),
{
    let all = answers + rest;
    if answers.len() == 0 {
        assert(all =~= rest);
    } else {
        let less = answers.drop_first();
        assert forall|i: int| 0 <= i < less.len() implies (#[trigger] less[i]).role
            == Role::Tool by {
            assert(less[i] == answers[i + 1]);
        }
        lemma_leading_answers_of(less, rest);
        assert(all.drop_first() =~= less + rest);
        assert(answers[0].role == Role::Tool);
    }
}

proof fn lemma_repaired_head(m: Seq<MessageView>)
    ensures
        repaired(m).len() >= m.len(),
        m.len() > 0 ==> repaired(m)[0] == m[0],
        m.len() == 0 ==> repaired(m).len() == 0,
    decreases m.len(),
{
    if m.len() > 0 {
        lemma_leading_answers(m.drop_first());
        match asked_by(m[0]) {
            Some(asked) => {
                let n = leading_answers(m.drop_first());
                lemma_repaired_head(m.drop_first().skip(n as int));
            },
            None => {
                lemma_repaired_head(m.drop_first());
            },
        }
    }
}

proof fn lemma_all_answered_prefix(a: Seq<MessageView>, b: Seq<MessageView>)
    requires
        forall|i: int| 0 <= i < a.len() ==> asked_by(#[trigger] a[i]) is None,
        all_answered(b),
    ensures
        all_answered(a + b),
{
    let m = a + b;
    assert forall|i: int, k: int|
        #![trigger m[i], asked_by(m[i])->0[k]]
        0 <= i < m.len() && asked_by(m[i]) is Some && 0 <= k < asked_by(m[i])->0.len() implies answered(
        m.skip(i + 1).take(leading_answers(m.skip(i + 1)) as int),
        asked_by(m[i])->0[k].id,
    ) by {
        if i < a.len() {
            assert(m[i] == a[i]);
        } else {
            let j = i - a.len();
            assert(m[i] == b[j]);
            assert(m.skip(i + 1) =~= b.skip(j + 1));
            assert(asked_by(b[j])->0[k] == asked_by(m[i])->0[k]);
        }
    }
}

/// After the repair every call is answered right after the message that asks for it.
pub proof fn law_repair_answers_every_call(m: Seq<MessageView>)
    ensures
        all_answered(repaired(m)),
    decreases m.len(),
{
    if m.len() > 0 {
        lemma_leading_answers(m.drop_first());
        match asked_by(m[0]) {
            Some(asked) => {
                let tail = m.drop_first();
                let n = leading_answers(tail);
                let answers = tail.take(n as int);
                let later = tail.skip(n as int);
                law_repair_answers_every_call(later);
                lemma_repaired_head(later);
                lemma_stubs_answer(asked, answers);
                let all = answers + stubs(asked, answers);
                assert forall|i: int| 0 <= i < all.len() implies (#[trigger] all[i]).role
                    == Role::Tool by {
                    if i < answers.len() {
                        assert(all[i] == tail[i]);
                    } else {
                        assert(all[i] == stubs(asked, answers)[i - answers.len()]);
                    }
                }
                assert(later.len() > 0 ==> later[0] == tail[n as int]);
                lemma_leading_answers_of(all, repaired(later));
                lemma_all_answered_prefix(all, repaired(later));
                let out = repaired(m);
                let body = all + repaired(later);
                assert(out =~= seq![m[0]] + body);
                assert forall|i: int, k: int|
                    #![trigger out[i], asked_by(out[i])->0[k]]
                    0 <= i < out.len() && asked_by(out[i]) is Some && 0 <= k < asked_by(
                        out[i],
                    )->0.len() implies answered(
                    out.skip(i + 1).take(leading_answers(out.skip(i + 1)) as int),
                    asked_by(out[i])->0[k].id,
                ) by {
                    if i == 0 {
                        assert(out.skip(1) =~= body);
                        assert(body.take(all.len() as int) =~= all);
                        assert(answered(all, asked[k].id));
                    } else {
                        assert(out[i] == body[i - 1]);
                        assert(out.skip(i + 1) =~= body.skip(i));
                        assert(asked_by(body[i - 1])->0[k] == asked_by(out[i])->0[k]);
                    }
                }
            },
            None => {
                law_repair_answers_every_call(m.drop_first());
                lemma_all_answered_prefix(seq![m[0]], repaired(m.drop_first()));
            },
        }
    }
}

proof fn lemma_no_stubs(asked: Seq<ToolCall<Seq<char>>>, answers: Seq<MessageView>)
    requires
        forall|k: int| 0 <= k < asked.len() ==> answered(answers, (#[trigger] asked[k]).id),
    ensures
        stubs(asked, answers) == Seq::<MessageView>::empty(),
    decreases asked.len(),
{
    if asked.len() > 0 {
        let less = asked.drop_last();
        assert forall|k: int| 0 <= k < less.len() implies answered(
            answers,
            (#[trigger] less[k]).id,
        ) by {
            assert(less[k] == asked[k]);
        }
        lemma_no_stubs(less, answers);
        assert(answered(answers, asked[asked.len() - 1].id));
    }
}

/// A history in which every call is answered is left as it is.
pub proof fn law_repair_leaves_a_sound_history(m: Seq<MessageView>)
    requires
        all_answered(m),
    ensures
        repaired(m) == m,
    decreases m.len(),
{
    if m.len() > 0 {
        let tail = m.drop_first();
        lemma_leading_answers(tail);
        match asked_by(m[0]) {
            Some(asked) => {
                let n = leading_answers(tail);
                let answers = tail.take(n as int);
                let later = tail.skip(n as int);
                assert(m.skip(1) =~= tail);
                assert forall|k: int| 0 <= k < asked.len() implies answered(
                    answers,
                    (#[trigger] asked[k]).id,
                ) by {
                    assert(asked_by(m[0])->0[k] == asked[k]);
                }
                lemma_no_stubs(asked, answers);
                lemma_all_answered_suffix(m, 1 + n as int);
                assert(m.skip(1 + n as int) =~= later);
                law_repair_leaves_a_sound_history(later);
                assert(seq![m[0]] + answers + Seq::empty() + later =~= m);
            },
            None => {
                lemma_all_answered_suffix(m, 1);
                assert(m.skip(1) =~= tail);
                law_repair_leaves_a_sound_history(tail);
                assert(seq![m[0]] + tail =~= m);
            },
        }
    }
}

proof fn lemma_all_answered_suffix(m: Seq<MessageView>, at: int)
    requires
        all_answered(m),
        0 <= at <= m.len(),
    ensures
        all_answered(m.skip(at)),
{
    let s = m.skip(at);
    assert forall|i: int, k: int|
        #![trigger s[i], asked_by(s[i])->0[k]]
        0 <= i < s.len() && asked_by(s[i]) is Some && 0 <= k < asked_by(s[i])->0.len() implies answered(
        s.skip(i + 1).take(leading_answers(s.skip(i + 1)) as int),
        asked_by(s[i])->0[k].id,
    ) by {
        assert(s[i] == m[at + i]);
        assert(s.skip(i + 1) =~= m.skip(at + i + 1));
        assert(asked_by(m[at + i])->0[k] == asked_by(s[i])->0[k]);
    }
}

/// Repairing a second time changes nothing.
pub proof fn law_repair_is_done_once(m: Seq<MessageView>)
    ensures
        repaired(repaired(m)) == repaired(m),
{
    law_repair_answers_every_call(m);
    law_repair_leaves_a_sound_history(repaired(m));
}

/// After the repair each call of an assistant message is answered by its id, among the
/// answers that follow the message without a break.
pub proof fn law_every_call_has_an_answer_behind_it(m: Seq<MessageView>, i: int, k: int)
    requires
        0 <= i < repaired(m).len(),
        repaired(m)[i].role == Role::Assistant,
        repaired(m)[i].tool_calls matches Some(c) && 0 <= k < c.len(),
    ensures
        exists|j: int|
            i < j < repaired(m).len() && (#[trigger] repaired(m)[j]).tool_call_id == Some(
                repaired(m)[i].tool_calls->0[k].id,
            ) && forall|l: int| i < l <= j ==> (#[trigger] repaired(m)[l]).role == Role::Tool,
{
    let r = repaired(m);
    law_repair_answers_every_call(m);
    let tail = r.skip(i + 1);
    lemma_leading_answers(tail);
    let n = leading_answers(tail) as int;
    let answers = tail.take(n);
    assert(asked_by(r[i])->0[k] == r[i].tool_calls->0[k]);
    assert(answered(answers, r[i].tool_calls->0[k].id));
    let x = choose|x: int|
        0 <= x < answers.len() && (#[trigger] answers[x]).tool_call_id == Some(
            r[i].tool_calls->0[k].id,
        );
    let j = i + 1 + x;
    assert(r[j] == tail[x]);
    assert forall|l: int| i < l <= j implies (#[trigger] r[l]).role == Role::Tool by {
        assert(r[l] == tail[l - i - 1]);
    }
}

/// The repair takes nothing out and adds nothing but answers to calls: with the answers
/// that it adds left out, the history is what it was.
pub proof fn law_repair_only_adds_answers(m: Seq<MessageView>)
    ensures
        repaired(m).len() >= m.len(),
        exists|at: Seq<int>|
            #![trigger at.len()]
            at.len() == m.len() && (forall|p: int, q: int|
                0 <= p < q < at.len() ==> #[trigger] at[p] < #[trigger] at[q]) && (forall|p: int|
                0 <= p < at.len() ==> 0 <= #[trigger] at[p] < repaired(m).len() && repaired(m)[at[p]]
                    == m[p]) && (forall|x: int|
                0 <= x < repaired(m).len() && !at.contains(x) ==> (
                #[trigger] repaired(m)[x]).role == Role::Tool),
    decreases m.len(),
{
    let r = repaired(m);
    if m.len() == 0 {
        let at = Seq::<int>::empty();
        assert(at.len() == m.len());
    } else {
        let tail = m.drop_first();
        lemma_leading_answers(tail);
        let (n, added) = match asked_by(m[0]) {
            Some(asked) => (leading_answers(tail) as int, stubs(asked, tail.take(leading_answers(tail) as int))),
            None => (0int, Seq::empty()),
        };
        let rest = tail.skip(n);
        law_repair_only_adds_answers(rest);
        let old = choose|at: Seq<int>|
            #![trigger at.len()]
            at.len() == rest.len() && (forall|p: int, q: int|
                0 <= p < q < at.len() ==> #[trigger] at[p] < #[trigger] at[q]) && (forall|p: int|
                0 <= p < at.len() ==> 0 <= #[trigger] at[p] < repaired(rest).len() && repaired(
                    rest,
                )[at[p]] == rest[p]) && (forall|x: int|
                0 <= x < repaired(rest).len() && !at.contains(x) ==> (
                #[trigger] repaired(rest)[x]).role == Role::Tool);
        if asked_by(m[0]) is None {
            assert(rest =~= tail);
            assert(tail.take(0) =~= Seq::empty());
        }
        let front = 1 + n + added.len();
        assert(r =~= seq![m[0]] + tail.take(n) + added + repaired(rest));
        let at = Seq::new(
            m.len(),
            |p: int|
                if p < 1 + n {
                    p
                } else {
                    front + old[p - 1 - n]
                },
        );
        assert(at.len() == m.len());
        assert forall|p: int| 0 <= p < at.len() implies 0 <= #[trigger] at[p] < r.len() && r[at[p]]
            == m[p] by {
            if p >= 1 + n {
                assert(rest[p - 1 - n] == m[p]);
                assert(r[at[p]] == repaired(rest)[old[p - 1 - n]]);
            }
        }
        match asked_by(m[0]) {
            Some(asked) => lemma_stubs_are_answers(asked, tail.take(n)),
            None => {},
        }
        assert forall|x: int| 0 <= x < r.len() && !at.contains(x) implies (#[trigger] r[x]).role
            == Role::Tool by {
            if x < 1 + n {
                assert(at[x] == x);
            } else if x < front {
                assert(r[x] == added[x - 1 - n]);
            } else {
                let y = x - front;
                assert(r[x] == repaired(rest)[y]);
                if old.contains(y) {
                    let p = choose|p: int| 0 <= p < old.len() && old[p] == y;
                    assert(at[p + 1 + n] == x);
                }
            }
        }
    }
}

proof fn lemma_stubs_are_answers(asked: Seq<ToolCall<Seq<char>>>, answers: Seq<MessageView>)
    ensures
        forall|i: int|
            0 <= i < stubs(asked, answers).len() ==> (#[trigger] stubs(asked, answers)[i]).role
                == Role::Tool,
    decreases asked.len(),
{
    if asked.len() > 0 {
        lemma_stubs_are_answers(asked.drop_last(), answers);
    }
}

/// A message that says something, or asks for calls, is sent as it is; one that does
/// neither is given words, and nothing else of it changes.
pub proof fn law_only_an_empty_message_is_given_words(msg: MessageView)
    ensures
        (msg.content matches Some(c) && text::trim(c).len() > 0) ==> with_content(msg) == msg,
        msg.tool_calls is Some ==> with_content(msg) == msg,
        msg.tool_calls is None && msg.content is None ==> (with_content(msg).content matches Some(c)
            && text::trim(c).len() > 0),
        with_content(msg).role == msg.role,
        with_content(msg).tool_call_id == msg.tool_call_id,
        with_content(with_content(msg)) == with_content(msg),
{
    reveal_strlit("(no response)");
    let s = "(no response)"@;
    assert(s.len() == 13 && s[0] == '(' && s.last() == ')');
    assert(text::trim_start(s) == s);
    assert(text::trim(s) == s);
}

} // verus!
