//! JSON objects, as the data of an event. `serde_json` writes them.

use crate::text::strings;
use vstd::prelude::*;

verus! {

/// `serde_json::Value`, carried through unread.
#[verifier::external_type_specification]
#[verifier::external_body]
pub struct ExValue(serde_json::Value);

/// `serde_json::Map`, a collection whose contents `members` names.
#[verifier::external_type_specification]
#[verifier::external_body]
#[verifier::reject_recursive_types(K)]
#[verifier::reject_recursive_types(V)]
pub struct ExMap<K, V>(serde_json::Map<K, V>);

/// A member of an object.
pub enum Member {
    Text(String),
    Flag(bool),
    Number(u64),
    List(Vec<String>),
}

/// What a member of an object holds.
pub enum MemberView {
    Text(Seq<char>),
    Flag(bool),
    Number(nat),
    List(Seq<Seq<char>>),
}

impl View for Member {
    type V = MemberView;

    open spec fn view(&self) -> MemberView {
        match self {
            Member::Text(s) => MemberView::Text(s@),
            Member::Flag(b) => MemberView::Flag(*b),
            Member::Number(n) => MemberView::Number(*n as nat),
            Member::List(v) => MemberView::List(strings(v@)),
        }
    }
}

/// The members of an object under construction.
pub uninterp spec fn members(
    object: serde_json::Map<String, serde_json::Value>,
) -> Map<Seq<char>, MemberView>;

/// No members at all.
pub open spec fn no_members() -> Map<Seq<char>, MemberView> {
    Map::empty()
}

/// The text that `serde_json` writes for an object with these members.
pub uninterp spec fn object_text(members: Map<Seq<char>, MemberView>) -> Seq<char>;

/// Calls `serde_json::Map::new`: an object without members.
#[verifier::external_body]
pub(crate) fn new_object() -> (r: serde_json::Map<String, serde_json::Value>)
    ensures
        members(r) == no_members(),
{
    serde_json::Map::new()
}

/// Calls `serde_json::Map::insert`: the member `key` is now `value`, and the
/// others are as they were. The value becomes a JSON string, boolean, whole
/// number or array of strings.
#[verifier::external_body]
pub(crate) fn put(
    object: &mut serde_json::Map<String, serde_json::Value>,
    key: &str,
    value: Member,
)
    ensures
        members(*final(object)) == members(*old(object)).insert(key@, value@),
{
    let value = match value {
        Member::Text(s) => serde_json::Value::from(s),
        Member::Flag(b) => serde_json::Value::from(b),
        Member::Number(n) => serde_json::Value::from(n),
        Member::List(v) => serde_json::Value::from(v),
    };
    object.insert(key.to_string(), value);
}

/// Calls `to_string` on `serde_json::Value::Object`: compact JSON, with the
/// members in the order of their keys, so that the text depends on the members
/// alone.
#[verifier::external_body]
pub(crate) fn object_to_text(object: serde_json::Map<String, serde_json::Value>) -> (r: String)
    ensures
        r@ == object_text(members(object)),
{
    serde_json::Value::Object(object).to_string()
}

} // verus!
