//! JSON documents as plain values, and the few questions the crate asks of
//! them.

use vstd::prelude::*;

verus! {

/// A JSON value. A number is kept as it is written. An object is the list
/// of its members in the order in which they are written.
pub enum JsonValue {
    Null,
    Bool(bool),
    Number(String),
    Text(String),
    Array(Vec<JsonValue>),
    Object(Vec<(String, JsonValue)>),
}

/// The index of the first of the first `n` members that is called `name`.
pub open spec fn member_index(members: Seq<(String, JsonValue)>, name: Seq<char>, n: int) -> Option<
    int,
>
    decreases n,
{
    if n <= 0 {
        None
    } else {
        match member_index(members, name, n - 1) {
            Some(i) => Some(i),
            None => if members[n - 1].0@ == name {
                Some(n - 1)
            } else {
                None
            },
        }
    }
}

impl JsonValue {
    /// The member called `name` of an object: the first, if several are
    /// called so. Nothing for a value that is no object.
    pub open spec fn member(self, name: Seq<char>) -> Option<JsonValue> {
        match self {
            JsonValue::Object(members) => match member_index(
                members@,
                name,
                members@.len() as int,
            ) {
                Some(i) => Some(members@[i].1),
                None => None,
            },
            _ => None,
        }
    }

    /// The text of a string; nothing for a value that is no string.
    pub open spec fn text(self) -> Option<Seq<char>> {
        match self {
            JsonValue::Text(s) => Some(s@),
            _ => None,
        }
    }

    /// The elements of an array; nothing for a value that is no array.
    pub open spec fn elements(self) -> Option<Seq<JsonValue>> {
        match self {
            JsonValue::Array(elements) => Some(elements@),
            _ => None,
        }
    }

    /// Whether the member called `name` is the string `wanted`.
    pub open spec fn has_text(self, name: Seq<char>, wanted: Seq<char>) -> bool {
        match self.member(name) {
            Some(value) => value.text() == Some(wanted),
            None => false,
        }
    }

    /// The member called `name` of an object.
    pub fn get(&self, name: &str) -> (r: Option<&JsonValue>)
        ensures
            match r {
                Some(value) => self.member(name@) == Some(*value),
                None => self.member(name@) is None,
            },
    {
        match self {
            JsonValue::Object(members) => {
                let wanted = name.to_string();
                let mut i: usize = 0;
                while i < members.len()
                    invariant
                        *self == JsonValue::Object(*members),
                        i <= members@.len(),
                        wanted@ == name@,
                        member_index(members@, name@, i as int) is None,
                    decreases members@.len() - i,
                {
                    if members[i].0 == wanted {
                        proof {
                            assert(member_index(members@, name@, i as int + 1) == Some(i as int));
                            lemma_member_index_extends(members@, name@, i as int + 1);
                        }
                        return Some(&members[i].1);
                    }
                    i += 1;
                }
                None
            },
            _ => None,
        }
    }

    /// The text of a string.
    pub fn as_str(&self) -> (r: Option<&str>)
        ensures
            match r {
                Some(s) => self.text() == Some(s@),
                None => self.text() is None,
            },
    {
        match self {
            JsonValue::Text(s) => Some(s.as_str()),
            _ => None,
        }
    }

    /// The elements of an array.
    pub fn as_array(&self) -> (r: Option<&Vec<JsonValue>>)
        ensures
            match r {
                Some(elements) => self.elements() == Some(elements@),
                None => self.elements() is None,
            },
    {
        match self {
            JsonValue::Array(elements) => Some(elements),
            _ => None,
        }
    }

    /// Whether the member called `name` is the string `wanted`.
    pub fn member_is(&self, name: &str, wanted: &str) -> (b: bool)
        ensures
            b == self.has_text(name@, wanted@),
    {
        match self.get(name) {
            Some(value) => match value.as_str() {
                Some(s) => {
                    let found = s.to_string();
                    let wanted = wanted.to_string();
                    found == wanted
                },
                None => false,
            },
            None => false,
        }
    }
}

/// A member found among the first `n` is found among all.
pub proof fn lemma_member_index_extends(members: Seq<(String, JsonValue)>, name: Seq<char>, n: int)
    requires
        0 <= n <= members.len(),
        member_index(members, name, n) is Some,
    ensures
        member_index(members, name, members.len() as int) == member_index(members, name, n),
    decreases members.len() - n,
{
    if n < members.len() {
        lemma_member_index_extends(members, name, n + 1);
    }
}

/// The first element among the first `n` whose member called `name` is the
/// string `wanted`.
pub open spec fn first_with(elements: Seq<JsonValue>, name: Seq<char>, wanted: Seq<char>, n: int) -> Option<
    JsonValue,
>
    decreases n,
{
    if n <= 0 {
        None
    } else {
        match first_with(elements, name, wanted, n - 1) {
            Some(e) => Some(e),
            None => if elements[n - 1].has_text(name, wanted) {
                Some(elements[n - 1])
            } else {
                None
            },
        }
    }
}

/// An element found among the first `n` is the one found among all.
pub proof fn lemma_first_with_extends(
    elements: Seq<JsonValue>,
    name: Seq<char>,
    wanted: Seq<char>,
    n: int,
)
    requires
        0 <= n <= elements.len(),
        first_with(elements, name, wanted, n) is Some,
    ensures
        first_with(elements, name, wanted, elements.len() as int) == first_with(
            elements,
            name,
            wanted,
            n,
        ),
    decreases elements.len() - n,
{
    if n < elements.len() {
        lemma_first_with_extends(elements, name, wanted, n + 1);
    }
}

/// The first element of a list whose member called `name` is the string
/// `wanted`.
pub fn find_with<'a>(elements: &'a Vec<JsonValue>, name: &str, wanted: &str) -> (r: Option<
    &'a JsonValue,
>)
    ensures
        match r {
            Some(e) => first_with(elements@, name@, wanted@, elements@.len() as int) == Some(*e),
            None => first_with(elements@, name@, wanted@, elements@.len() as int) is None,
        },
{
    let mut i: usize = 0;
    while i < elements.len()
        invariant
            i <= elements@.len(),
            first_with(elements@, name@, wanted@, i as int) is None,
        decreases elements@.len() - i,
    {
        if elements[i].member_is(name, wanted) {
            proof {
                assert(first_with(elements@, name@, wanted@, i as int + 1) == Some(
                    elements@[i as int],
                ));
                lemma_first_with_extends(elements@, name@, wanted@, i as int + 1);
            }
            return Some(&elements[i]);
        }
        i += 1;
    }
    None
}

} // verus!
