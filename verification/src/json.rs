//! A JSON value, as far as an answer of the endpoint is read.

use vstd::prelude::*;

verus! {

/// A JSON value. A number is kept as the text that denotes it; an object
/// keeps its members in the order in which they were written.
#[derive(Debug, PartialEq, Eq)]
pub enum Json {
    Null,
    Bool(bool),
    Number(String),
    Text(String),
    List(Vec<Json>),
    Object(Vec<(String, Json)>),
}

/// The value of the first member called `name`, if there is one.
pub open spec fn member(members: Seq<(String, Json)>, name: Seq<char>) -> Option<Json>
    decreases members.len(),
{
    if members.len() == 0 {
        None
    } else if members[0].0@ == name {
        Some(members[0].1)
    } else {
        member(members.skip(1), name)
    }
}

impl Json {
    /// The member `name` of an object; nothing for any other value.
    pub open spec fn spec_field(self, name: Seq<char>) -> Option<Json> {
        match self {
            Json::Object(members) => member(members@, name),
            _ => None,
        }
    }

    /// The elements of a list; nothing for any other value.
    pub open spec fn spec_items(self) -> Option<Seq<Json>> {
        match self {
            Json::List(items) => Some(items@),
            _ => None,
        }
    }

    /// The characters of a string; nothing for any other value.
    pub open spec fn spec_text(self) -> Option<Seq<char>> {
        match self {
            Json::Text(text) => Some(text@),
            _ => None,
        }
    }

    /// Looks up the member `name` of an object.
    pub fn field<'a>(&'a self, name: &str) -> (value: Option<&'a Json>)
        ensures
            match value {
                Some(v) => self.spec_field(name@) == Some(*v),
                None => self.spec_field(name@) is None,
            },
    {
        match self {
            Json::Object(members) => {
                let wanted = name.to_owned();
                let mut at: usize = 0;
                proof {
                    assert(members@.skip(0) =~= members@);
                }
                while at < members.len()
                    invariant
                        at <= members.len(),
                        wanted@ == name@,
                        self.spec_field(name@) == member(members@, name@),
                        member(members@, name@) == member(members@.skip(at as int), name@),
                    decreases members.len() - at,
                {
                    proof {
                        let rest = members@.skip(at as int);
                        assert(rest.len() > 0 && rest[0] == members@[at as int]);
                        assert(rest.skip(1) =~= members@.skip(at + 1));
                    }
                    if members[at].0 == wanted {
                        return Some(&members[at].1);
                    }
                    at += 1;
                }
                None
            },
            _ => None,
        }
    }

    /// The elements, if the value is a list.
    pub fn items(&self) -> (items: Option<&Vec<Json>>)
        ensures
            match items {
                Some(v) => self.spec_items() == Some(v@),
                None => self.spec_items() is None,
            },
    {
        match self {
            Json::List(items) => Some(items),
            _ => None,
        }
    }

    /// The characters, if the value is a string.
    pub fn text(&self) -> (text: Option<&str>)
        ensures
            match text {
                Some(t) => self.spec_text() == Some(t@),
                None => self.spec_text() is None,
            },
    {
        match self {
            Json::Text(text) => Some(text.as_str()),
            _ => None,
        }
    }

    /// Whether the value is the string `text`.
    pub open spec fn is_text(self, text: Seq<char>) -> bool {
        self.spec_text() == Some(text)
    }
}

} // verus!
