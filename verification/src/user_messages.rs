//! What identifies a user message across its shapes: a submitted steer is
//! matched to the message the server later reports by its flattened text and
//! its number of images.

use vstd::prelude::*;

use crate::text::{chars_to_string, push_chars, str_chars};

verus! {

/// One part of a user submission.
#[derive(Clone, Debug, PartialEq, Eq)]
pub enum UserInput {
    Text(String),
    Image(String),
    LocalImage(String),
    Skill(String),
    Mention(String),
}

/// The key a pending steer is matched by.
#[derive(Clone, Debug, PartialEq, Eq)]
pub struct PendingSteerCompareKey {
    pub message: String,
    pub image_count: usize,
}

/// The text parts, concatenated, and the number of image parts.
pub open spec fn compare_key_spec(items: Seq<UserInput>) -> (Seq<char>, int)
    decreases items.len(),
{
    if items.len() == 0 {
        (seq![], 0)
    } else {
        let rest = compare_key_spec(items.drop_last());
        match items.last() {
            UserInput::Text(t) => (rest.0 + t@, rest.1),
            UserInput::Image(_) | UserInput::LocalImage(_) => (rest.0, rest.1 + 1),
            _ => rest,
        }
    }
}

pub fn pending_steer_compare_key_from_items(items: &[UserInput]) -> (r: PendingSteerCompareKey)
    ensures
        (r.message@, r.image_count as int) == compare_key_spec(items@),
{
    let mut message: Vec<char> = Vec::new();
    let mut image_count: usize = 0;
    let mut i: usize = 0;
    while i < items.len()
        invariant
            i <= items.len(),
            (message@, image_count as int) == compare_key_spec(items@.take(i as int)),
            image_count <= i,
        decreases items.len() - i,
    {
        assert(items@.take(i as int + 1).drop_last() =~= items@.take(i as int));
        match &items[i] {
            UserInput::Text(t) => push_chars(&mut message, str_chars(t.as_str()).as_slice()),
            UserInput::Image(_) | UserInput::LocalImage(_) => image_count = image_count + 1,
            _ => {},
        }
        i = i + 1;
    }
    assert(items@.take(items.len() as int) =~= items@);
    PendingSteerCompareKey { message: chars_to_string(message.as_slice()), image_count }
}

} // verus!
