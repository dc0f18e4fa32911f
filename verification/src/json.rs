//! JSON objects as the server writes them.

use crate::encoding;
use crate::outside;
use crate::text;
use vstd::prelude::*;

verus! {

/// A value that a member of an object can have here: a text, a whole number, or an object whose
/// members are texts.
pub enum JsonValue {
    Text(Seq<char>),
    Number(u64),
    Object(Seq<(Seq<char>, Seq<char>)>),
}

/// The members of an object whose values are texts, separated by commas.
pub open spec fn text_members(members: Seq<(Seq<char>, Seq<char>)>) -> Seq<char>
    decreases members.len(),
{
    if members.len() == 0 {
        Seq::empty()
    } else {
        let last = encoding::json_string(members.last().0) + seq![':'] + encoding::json_string(
            members.last().1,
        );
        if members.len() == 1 {
            last
        } else {
            text_members(members.drop_last()) + seq![','] + last
        }
    }
}

/// How a value is written.
pub open spec fn value_text(value: JsonValue) -> Seq<char> {
    match value {
        JsonValue::Text(text) => encoding::json_string(text),
        JsonValue::Number(number) => text::decimal(number as nat),
        JsonValue::Object(members) => seq!['{'] + text_members(members) + seq!['}'],
    }
}

/// The members of an object, separated by commas.
pub open spec fn member_list(members: Seq<(Seq<char>, JsonValue)>) -> Seq<char>
    decreases members.len(),
{
    if members.len() == 0 {
        Seq::empty()
    } else {
        let last = encoding::json_string(members.last().0) + seq![':'] + value_text(
            members.last().1,
        );
        if members.len() == 1 {
            last
        } else {
            member_list(members.drop_last()) + seq![','] + last
        }
    }
}

/// An object with these members.
pub open spec fn object_text(members: Seq<(Seq<char>, JsonValue)>) -> Seq<char> {
    seq!['{'] + member_list(members) + seq!['}']
}

/// A name that JSON readers give no meaning of their own.
pub open spec fn is_plain_name(name: Seq<char>) -> bool {
    name.len() > 0 && name[0] != '$'
}

/// Every member has a plain name, and no two members have the same.
pub open spec fn well_named(members: Seq<(Seq<char>, JsonValue)>) -> bool {
    &&& forall|i: int| 0 <= i < members.len() ==> is_plain_name((#[trigger] members[i]).0)
    &&& forall|i: int, j: int|
        0 <= i < j < members.len() ==> (#[trigger] members[i]).0 != (#[trigger] members[j]).0
    &&& forall|i: int|
        0 <= i < members.len() ==> match (#[trigger] members[i]).1 {
            JsonValue::Object(inner) => forall|k: int|
                0 <= k < inner.len() ==> is_plain_name((#[trigger] inner[k]).0),
            _ => true,
        }
}

/// A value to be written as JSON.
#[derive(Debug)]
pub enum Json {
    Text(String),
    Number(u64),
    Object(Vec<(String, String)>),
}

/// The names and texts of members.
pub open spec fn member_texts(members: Seq<(String, String)>) -> Seq<(Seq<char>, Seq<char>)> {
    members.map_values(|member: (String, String)| (member.0@, member.1@))
}

impl View for Json {
    type V = JsonValue;

    open spec fn view(&self) -> JsonValue {
        match self {
            Json::Text(text) => JsonValue::Text(text@),
            Json::Number(number) => JsonValue::Number(*number),
            Json::Object(members) => JsonValue::Object(member_texts(members@)),
        }
    }
}

/// The names and values of members.
pub open spec fn members_of(members: Seq<(String, Json)>) -> Seq<(Seq<char>, JsonValue)> {
    members.map_values(|member: (String, Json)| (member.0@, member.1@))
}

/// Writes members whose values are texts.
fn text_members_text(members: &Vec<(String, String)>) -> (out: String)
    ensures
        out@ == text_members(member_texts(members@)),
{
    proof {
        reveal_strlit(":");
        reveal_strlit(",");
        assert(":"@ =~= seq![':']);
        assert(","@ =~= seq![',']);
    }
    let ghost all = member_texts(members@);
    let mut out: String = String::new();
    let mut i: usize = 0;
    proof {
        assert(all.take(0).len() == 0);
        assert(out@ =~= text_members(all.take(0)));
    }
    while i < members.len()
        invariant
            i <= members.len(),
            all == member_texts(members@),
            ":"@ == seq![':'],
            ","@ == seq![','],
            out@ == text_members(all.take(i as int)),
        decreases members.len() - i,
    {
        proof {
            assert(all.take(i + 1).drop_last() =~= all.take(i as int));
            assert(all.take(i + 1).last() == all[i as int]);
        }
        let ghost before = out@;
        if i > 0 {
            out.append(",");
        }
        out.append(outside::json_quote(members[i].0.as_str()).as_str());
        out.append(":");
        out.append(outside::json_quote(members[i].1.as_str()).as_str());
        proof {
            let last = encoding::json_string(all[i as int].0) + seq![':'] + encoding::json_string(
                all[i as int].1,
            );
            if i > 0 {
                assert(out@ =~= before + seq![','] + last);
            } else {
                assert(out@ =~= last);
            }
        }
        i = i + 1;
    }
    proof {
        assert(all.take(all.len() as int) =~= all);
    }
    out
}

/// Writes a value.
fn value_string(value: &Json) -> (out: String)
    ensures
        out@ == value_text(value@),
{
    match value {
        Json::Text(text) => outside::json_quote(text.as_str()),
        Json::Number(number) => text::decimal_text(*number),
        Json::Object(members) => {
            proof {
                reveal_strlit("{");
                reveal_strlit("}");
                assert("{"@ =~= seq!['{']);
                assert("}"@ =~= seq!['}']);
            }
            let mut out: String = "{".to_owned();
            out.append(text_members_text(members).as_str());
            out.append("}");
            out
        },
    }
}

/// Writes an object with these members.
pub fn object_string(members: &Vec<(String, Json)>) -> (out: String)
    ensures
        out@ == object_text(members_of(members@)),
{
    proof {
        reveal_strlit("{");
        reveal_strlit("}");
        reveal_strlit(":");
        reveal_strlit(",");
        assert("{"@ =~= seq!['{']);
        assert("}"@ =~= seq!['}']);
        assert(":"@ =~= seq![':']);
        assert(","@ =~= seq![',']);
    }
    let ghost all = members_of(members@);
    let mut list: String = String::new();
    let mut i: usize = 0;
    proof {
        assert(all.take(0).len() == 0);
        assert(list@ =~= member_list(all.take(0)));
    }
    while i < members.len()
        invariant
            i <= members.len(),
            all == members_of(members@),
            ":"@ == seq![':'],
            ","@ == seq![','],
            list@ == member_list(all.take(i as int)),
        decreases members.len() - i,
    {
        proof {
            assert(all.take(i + 1).drop_last() =~= all.take(i as int));
            assert(all.take(i + 1).last() == all[i as int]);
        }
        let ghost before = list@;
        if i > 0 {
            list.append(",");
        }
        list.append(outside::json_quote(members[i].0.as_str()).as_str());
        list.append(":");
        list.append(value_string(&members[i].1).as_str());
        proof {
            let last = encoding::json_string(all[i as int].0) + seq![':'] + value_text(
                all[i as int].1,
            );
            if i > 0 {
                assert(list@ =~= before + seq![','] + last);
            } else {
                assert(list@ =~= last);
            }
        }
        i = i + 1;
    }
    proof {
        assert(all.take(all.len() as int) =~= all);
    }
    let mut out: String = "{".to_owned();
    out.append(list.as_str());
    out.append("}");
    out
}

} // verus!
