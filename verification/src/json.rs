//! Requests as JSON text: the members of an object, as far as a request has use for them.

use serde_json::Value;
use vstd::prelude::*;

use crate::text::text_equal;

verus! {

/// What a member of an object holds.
pub enum Member {
    Text(String),
    /// A number; `None` for one that is no unsigned integer of 64 bits.
    Number(Option<u64>),
    /// The elements of a list, `None` for one that is no text.
    List(Vec<Option<String>>),
    /// Anything that no request has use for.
    Other,
}

/// What a member says.
#[verifier::ext_equal]
pub ghost enum MemberView {
    Text(Seq<char>),
    Number(Option<u64>),
    List(Seq<Option<Seq<char>>>),
    Other,
}

/// What an optional text says.
pub open spec fn text_view(text: Option<String>) -> Option<Seq<char>> {
    match text {
        Some(s) => Some(s@),
        None => None,
    }
}

/// What the elements of a list say.
pub open spec fn list_view(list: Seq<Option<String>>) -> Seq<Option<Seq<char>>> {
    Seq::new(list.len(), |i: int| text_view(list[i]))
}

impl Member {
    pub open spec fn view(&self) -> MemberView {
        match self {
            Member::Text(s) => MemberView::Text(s@),
            Member::Number(n) => MemberView::Number(*n),
            Member::List(list) => MemberView::List(list_view(list@)),
            Member::Other => MemberView::Other,
        }
    }
}

/// What the members of an object say, each with its name.
pub open spec fn members_view(members: Seq<(String, Member)>) -> Seq<(Seq<char>, MemberView)> {
    Seq::new(members.len(), |i: int| (members[i].0@, members[i].1@))
}

/// The members of the object that a JSON pointer leads to in a JSON text, none where it leads
/// to something else or nowhere; or the parser's words on a text that is no JSON.
pub uninterp spec fn json_members(text: Seq<char>, pointer: Seq<char>) -> Result<
    Seq<(Seq<char>, MemberView)>,
    Seq<char>,
>;

/// `serde_json::from_str` into a `serde_json::Value`, and the object that
/// `serde_json::Value::pointer` finds in it: its members, or the words of the parser's error.
/// Both depend on the text and the pointer alone. Which members a text has is not told.
#[verifier::external_body]
pub(crate) fn parse_members(text: &str, pointer: &str) -> (r: Result<
    Vec<(String, Member)>,
    String,
>)
    ensures
        match r {
            Ok(members) => json_members(text@, pointer@) == Ok::<_, Seq<char>>(
                members_view(members@),
            ),
            Err(e) => json_members(text@, pointer@) == Err::<Seq<(Seq<char>, MemberView)>, _>(e@),
        },
{
    let root: Value = serde_json::from_str(text).map_err(|e| e.to_string())?;
    let mut members = Vec::new();
    for (name, value) in root.pointer(pointer).and_then(Value::as_object).into_iter().flatten() {
        let member = match value {
            Value::String(s) => Member::Text(s.clone()),
            Value::Number(n) => Member::Number(n.as_u64()),
            Value::Array(a) => {
                Member::List(a.iter().map(|e| e.as_str().map(str::to_owned)).collect())
            },
            Value::Null | Value::Bool(_) | Value::Object(_) => Member::Other,
        };
        members.push((name.clone(), member));
    }
    Ok(members)
}

/// The first member with a name.
pub open spec fn named(members: Seq<(Seq<char>, MemberView)>, name: Seq<char>) -> Option<MemberView>
    decreases members.len(),
{
    if members.len() == 0 {
        None
    } else if members[0].0 == name {
        Some(members[0].1)
    } else {
        named(members.drop_first(), name)
    }
}

/// The text that a member holds.
pub open spec fn named_text(members: Seq<(Seq<char>, MemberView)>, name: Seq<char>) -> Option<
    Seq<char>,
> {
    match named(members, name) {
        Some(MemberView::Text(s)) => Some(s),
        _ => None,
    }
}

/// The unsigned integer that a member holds.
pub open spec fn named_number(members: Seq<(Seq<char>, MemberView)>, name: Seq<char>) -> Option<
    u64,
> {
    match named(members, name) {
        Some(MemberView::Number(n)) => n,
        _ => None,
    }
}

/// The list that a member holds.
pub open spec fn named_list(members: Seq<(Seq<char>, MemberView)>, name: Seq<char>) -> Option<
    Seq<Option<Seq<char>>>,
> {
    match named(members, name) {
        Some(MemberView::List(list)) => Some(list),
        _ => None,
    }
}

fn find<'a>(members: &'a [(String, Member)], name: &str) -> (r: Option<&'a Member>)
    ensures
        match r {
            Some(m) => named(members_view(members@), name@) == Some(m@),
            None => named(members_view(members@), name@) is None,
        },
{
    let ghost all = members_view(members@);
    let mut i: usize = 0;
    assert(all.skip(0) =~= all);
    while i < members.len()
        invariant
            i <= members@.len(),
            all == members_view(members@),
            named(all, name@) == named(all.skip(i as int), name@),
        decreases members.len() - i,
    {
        if text_equal(members[i].0.as_str(), name) {
            return Some(&members[i].1);
        }
        assert(all.skip(i as int).drop_first() =~= all.skip(i + 1));
        i = i + 1;
    }
    None
}

/// The text that a member holds.
pub fn find_text(members: &[(String, Member)], name: &str) -> (r: Option<String>)
    ensures
        text_view(r) == named_text(members_view(members@), name@),
{
    match find(members, name) {
        Some(Member::Text(s)) => Some(s.clone()),
        _ => None,
    }
}

/// The unsigned integer that a member holds.
pub fn find_number(members: &[(String, Member)], name: &str) -> (r: Option<u64>)
    ensures
        r == named_number(members_view(members@), name@),
{
    match find(members, name) {
        Some(Member::Number(n)) => *n,
        _ => None,
    }
}

/// The list that a member holds.
pub fn find_list(members: &[(String, Member)], name: &str) -> (r: Option<Vec<Option<String>>>)
    ensures
        match r {
            Some(list) => named_list(members_view(members@), name@) == Some(list_view(list@)),
            None => named_list(members_view(members@), name@) is None,
        },
{
    let list = match find(members, name) {
        Some(Member::List(list)) => list,
        _ => return None,
    };
    let mut out: Vec<Option<String>> = Vec::new();
    let mut i: usize = 0;
    while i < list.len()
        invariant
            i <= list@.len(),
            out@.len() == i,
            forall|j: int|
                #![trigger out@[j]]
                0 <= j < i ==> text_view(out@[j]) == text_view(list@[j]),
        decreases list.len() - i,
    {
        let element = match &list[i] {
            Some(s) => Some(s.clone()),
            None => None,
        };
        out.push(element);
        i = i + 1;
    }
    assert(list_view(out@) =~= list_view(list@));
    Some(out)
}

/// A member is found by its name, the first one where there are several.
pub proof fn law_named_members(members: Seq<(Seq<char>, MemberView)>, name: Seq<char>, k: int)
    requires
        0 <= k < members.len(),
        members[k].0 == name,
        forall|i: int| #![trigger members[i]] 0 <= i < k ==> members[i].0 != name,
    ensures
        named(members, name) == Some(members[k].1),
    decreases k,
{
    if k > 0 {
        let rest = members.drop_first();
        assert forall|i: int| #![trigger rest[i]] 0 <= i < k - 1 implies rest[i].0 != name by {
            assert(members[i + 1].0 != name);
        }
        assert(members[0].0 != name);
        law_named_members(rest, name, k - 1);
    }
}

/// A name that no member has finds none.
pub proof fn law_unnamed_members(members: Seq<(Seq<char>, MemberView)>, name: Seq<char>)
    requires
        forall|i: int| #![trigger members[i]] 0 <= i < members.len() ==> members[i].0 != name,
    ensures
        named(members, name) is None,
    decreases members.len(),
{
    if members.len() > 0 {
        let rest = members.drop_first();
        assert forall|i: int| #![trigger rest[i]] 0 <= i < rest.len() implies rest[i].0 != name by {
            assert(members[i + 1].0 != name);
        }
        assert(members[0].0 != name);
        law_unnamed_members(rest, name);
    }
}

/// A member counts only for what it is: a text as a text, a number as a number, a list as a
/// list.
pub proof fn law_members_by_kind(
    members: Seq<(Seq<char>, MemberView)>,
    name: Seq<char>,
    text: Seq<char>,
    number: u64,
    list: Seq<Option<Seq<char>>>,
)
    ensures
        named_text(members, name) == Some(text) <==> named(members, name) == Some(
            MemberView::Text(text),
        ),
        named_number(members, name) == Some(number) <==> named(members, name) == Some(
            MemberView::Number(Some(number)),
        ),
        named_list(members, name) == Some(list) <==> named(members, name) == Some(
            MemberView::List(list),
        ),
{
}

} // verus!
