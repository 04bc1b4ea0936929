//! The arguments of a tool call: what the display reads of a JSON document.
use crate::text::str_eq;
use vstd::prelude::*;

verus! {

/// One JSON value, as far as the display of a tool call reads it.
#[derive(Debug, Clone, PartialEq, Eq)]
pub struct ArgValue {
    /// The text, where the value is a string.
    pub text: Option<String>,
    /// The number, where the value is an integer that is not negative.
    pub number: Option<u64>,
    /// The elements, where the value is an array: the text of each that is a string.
    pub items: Option<Vec<Option<String>>>,
    /// The value as compact JSON.
    pub compact: String,
}

/// A parsed arguments document.
#[derive(Debug, Clone, PartialEq, Eq)]
pub enum ToolArgs {
    /// `null`.
    Null,
    /// An object: its members in the order that the parser keeps them in.
    Object(Vec<(String, ArgValue)>),
    /// Any other value.
    Bare(ArgValue),
}

/// What an [`ArgValue`] holds.
pub struct ArgView {
    pub text: Option<Seq<char>>,
    pub number: Option<u64>,
    pub items: Option<Seq<Option<Seq<char>>>>,
    pub compact: Seq<char>,
}

/// What a [`ToolArgs`] holds.
pub enum ArgsView {
    Null,
    Object(Seq<(Seq<char>, ArgView)>),
    Bare(ArgView),
}

/// The view of an optional string.
pub open spec fn opt_view(s: Option<String>) -> Option<Seq<char>> {
    match s {
        Some(t) => Some(t@),
        None => None,
    }
}

impl View for ArgValue {
    type V = ArgView;

    open spec fn view(&self) -> ArgView {
        ArgView {
            text: opt_view(self.text),
            number: self.number,
            items: match self.items {
                Some(v) => Some(Seq::new(v@.len(), |i: int| opt_view(v@[i]))),
                None => None,
            },
            compact: self.compact@,
        }
    }
}

impl View for ToolArgs {
    type V = ArgsView;

    open spec fn view(&self) -> ArgsView {
        match self {
            ToolArgs::Null => ArgsView::Null,
            ToolArgs::Object(m) => ArgsView::Object(
                Seq::new(m@.len(), |i: int| (m@[i].0@, m@[i].1@)),
            ),
            ToolArgs::Bare(v) => ArgsView::Bare(v@),
        }
    }
}

/// What `serde_json::from_str` makes of `text`: the document, or what the parser says is
/// wrong with it.
pub uninterp spec fn json_document(text: Seq<char>) -> Result<ArgsView, Seq<char>>;

/// The view of a parsed document or an error's text.
pub open spec fn document_view(r: Result<ToolArgs, String>) -> Result<ArgsView, Seq<char>> {
    match r {
        Ok(a) => Ok(a@),
        Err(e) => Err(e@),
    }
}

/// `serde_json::from_str::<Value>`: the document that `text` holds, or the parser's error
/// as text. Each value is flattened to what `Value::as_str`, `as_u64`, `as_array` and its
/// compact form give. The result depends on `text` alone.
#[verifier::external_body]
pub(crate) fn parse_document(text: &str) -> (r: Result<ToolArgs, String>)
    ensures
        document_view(r) == json_document(text@),
{
    let string = |v: &serde_json::Value| v.as_str().map(String::from);
    let flat = |v: &serde_json::Value| ArgValue {
        text: string(v),
        number: v.as_u64(),
        items: v.as_array().map(|a| a.iter().map(string).collect()),
        compact: v.to_string(),
    };
    Ok(match serde_json::from_str::<serde_json::Value>(text).map_err(|e| e.to_string())? {
        serde_json::Value::Null => ToolArgs::Null,
        serde_json::Value::Object(m) =>
            ToolArgs::Object(m.iter().map(|(k, v)| (k.clone(), flat(v))).collect()),
        v => ToolArgs::Bare(flat(&v)),
    })
}

/// The document that `text` holds, with `null` standing for text that holds none.
pub open spec fn document_or_null(text: Seq<char>) -> ArgsView {
    match json_document(text) {
        Ok(a) => a,
        Err(_) => ArgsView::Null,
    }
}

/// The document that `text` holds, with `null` standing for text that holds none.
pub fn parse_args(text: &str) -> (r: ToolArgs)
    ensures
        r@ == document_or_null(text@),
{
    match parse_document(text) {
        Ok(a) => a,
        Err(_) => ToolArgs::Null,
    }
}

/// The first member of `m` under `key`.
pub open spec fn member(m: Seq<(Seq<char>, ArgView)>, key: Seq<char>) -> Option<ArgView>
    decreases m.len(),
{
    if m.len() == 0 {
        None
    } else if m[0].0 == key {
        Some(m[0].1)
    } else {
        member(m.drop_first(), key)
    }
}

impl ArgsView {
    /// The member of an object under `key`.
    pub open spec fn get(self, key: Seq<char>) -> Option<ArgView> {
        match self {
            ArgsView::Object(m) => member(m, key),
            _ => None,
        }
    }

    /// The member of an object under `key`, where it is a string.
    pub open spec fn string(self, key: Seq<char>) -> Option<Seq<char>> {
        match self.get(key) {
            Some(v) => v.text,
            None => None,
        }
    }

    /// The member of an object under `key`, where it is an integer that is not negative.
    pub open spec fn unsigned(self, key: Seq<char>) -> Option<u64> {
        match self.get(key) {
            Some(v) => v.number,
            None => None,
        }
    }
}

impl ToolArgs {
    /// The member of an object under `key`.
    pub fn get(&self, key: &str) -> (r: Option<&ArgValue>)
        ensures
            match r {
                Some(v) => self@.get(key@) == Some(v@),
                None => self@.get(key@) is None,
            },
    {
        match self {
            ToolArgs::Object(m) => {
                let ghost all = self@->Object_0;
                assert(all.skip(0) =~= all);
                for i in 0..m.len()
                    invariant
                        self@ == ArgsView::Object(all),
                        all.len() == m@.len(),
                        all == Seq::new(m@.len(), |j: int| (m@[j].0@, m@[j].1@)),
                        member(all, key@) == member(all.skip(i as int), key@),
                {
                    assert(all.skip(i as int)[0] == (m@[i as int].0@, m@[i as int].1@));
                    if str_eq(m[i].0.as_str(), key) {
                        return Some(&m[i].1);
                    }
                    assert(all.skip(i as int).drop_first() =~= all.skip(i + 1));
                }
                None
            },
            _ => None,
        }
    }

    /// The member of an object under `key`, where it is a string.
    pub fn string(&self, key: &str) -> (r: Option<String>)
        ensures
            opt_view(r) == self@.string(key@),
    {
        match self.get(key) {
            Some(v) => match &v.text {
                Some(t) => Some(t.clone()),
                None => None,
            },
            None => None,
        }
    }

    /// The member of an object under `key`, where it is an integer that is not negative.
    pub fn unsigned(&self, key: &str) -> (r: Option<u64>)
        ensures
            r == self@.unsigned(key@),
    {
        match self.get(key) {
            Some(v) => v.number,
            None => None,
        }
    }
}

} // verus!
