//! The naming convention: an instance called `name` by its user runs in the
//! container called `prefix + name` by the runtime, which lists it with a `/`
//! in front.

use vstd::prelude::*;
use crate::error::Error;
use crate::text::{chars_of, starts_with_at};

verus! {

/// The prefix that marks a container as an instance.
pub const INSTANCE_PREFIX: &'static str = "pojde-";

/// True when `prefix` can mark instances: it is not empty and holds no `/`.
pub open spec fn valid_prefix(prefix: Seq<char>) -> bool {
    &&& prefix.len() > 0
    &&& forall|i: int| 0 <= i < prefix.len() ==> prefix[i] != '/'
}

/// The runtime's name for the instance that its user calls `name`.
pub open spec fn runtime_name_of(prefix: Seq<char>, name: Seq<char>) -> Seq<char> {
    prefix + name
}

/// A listed container name without the `/` that the runtime puts in front.
pub open spec fn without_slash(runtime_name: Seq<char>) -> Seq<char> {
    if runtime_name.len() > 0 && runtime_name[0] == '/' {
        runtime_name.skip(1)
    } else {
        runtime_name
    }
}

/// The user's name for the container that the runtime calls `runtime_name`,
/// or `None` where the container is no instance.
pub open spec fn user_name_of(prefix: Seq<char>, runtime_name: Seq<char>) -> Option<Seq<char>> {
    let bare = without_slash(runtime_name);
    if prefix.is_prefix_of(bare) {
        Some(bare.skip(prefix.len() as int))
    } else {
        None
    }
}

/// Whether `prefix` can mark instances.
pub fn is_valid_prefix(prefix: &str) -> (valid: bool)
    ensures
        valid == valid_prefix(prefix@),
{
    let chars = chars_of(prefix);
    if chars.len() == 0 {
        return false;
    }
    let mut i: usize = 0;
    while i < chars.len()
        invariant
            i <= chars.len(),
            chars@ == prefix@,
            forall|j: int| 0 <= j < i ==> chars@[j] != '/',
        decreases chars.len() - i,
    {
        if chars[i] == '/' {
            return false;
        }
        i = i + 1;
    }
    true
}

/// Prepends the instance prefix to a user-facing name.
pub fn to_runtime_name(prefix: &str, name: &str) -> (runtime_name: String)
    ensures
        runtime_name@ == runtime_name_of(prefix@, name@),
{
    let mut runtime_name = String::from_str(prefix);
    runtime_name.append(name);
    runtime_name
}

/// Strips the runtime's leading `/` and the instance prefix from a container
/// name. A container whose name does not begin with the prefix is no instance.
pub fn from_runtime_name(prefix: &str, runtime_name: &str) -> (user_name: Result<String, Error>)
    ensures
        match user_name {
            Ok(name) => user_name_of(prefix@, runtime_name@) == Some(name@),
            Err(e) => e == Error::NotAnInstance && user_name_of(prefix@, runtime_name@) is None,
        },
{
    let listed = chars_of(runtime_name);
    let marker = chars_of(prefix);
    let start: usize = if listed.len() > 0 && listed[0] == '/' {
        1
    } else {
        0
    };
    proof {
        let bare = without_slash(runtime_name@);
        if marker@.len() <= bare.len() {
            assert(bare.subrange(0, marker@.len() as int) =~= listed@.subrange(
                start as int,
                start + marker@.len(),
            ));
        }
    }
    if starts_with_at(&listed, start, &marker) {
        let name = runtime_name.substring_char(start + marker.len(), listed.len());
        Ok(String::from_str(name))
    } else {
        Err(Error::NotAnInstance)
    }
}

/// Naming an instance for the runtime and reading that name back gives the
/// name that the user chose.
pub proof fn lemma_name_round_trip(prefix: Seq<char>, name: Seq<char>)
    requires
        valid_prefix(prefix),
    ensures
        user_name_of(prefix, runtime_name_of(prefix, name)) == Some(name),
{
}

/// The runtime lists an instance under its runtime name with a `/` in front:
/// that listed name reads back as the user's name too.
pub proof fn lemma_listed_name_round_trip(prefix: Seq<char>, name: Seq<char>)
    ensures
        user_name_of(prefix, seq!['/'] + runtime_name_of(prefix, name)) == Some(name),
{
}

/// A container that reads back as an instance called `name` carries that
/// instance's runtime name, with or without the `/` in front.
pub proof fn lemma_instance_name_is_runtime_name(prefix: Seq<char>, runtime_name: Seq<char>)
    requires
        user_name_of(prefix, runtime_name) is Some,
    ensures
        without_slash(runtime_name) == runtime_name_of(
            prefix,
            user_name_of(prefix, runtime_name)->0,
        ),
{
}

/// A container whose name, without the leading `/`, does not begin with the
/// prefix is never read as an instance.
pub proof fn lemma_foreign_name_is_no_instance(prefix: Seq<char>, runtime_name: Seq<char>)
    requires
        !prefix.is_prefix_of(without_slash(runtime_name)),
    ensures
        user_name_of(prefix, runtime_name) is None,
{
}

} // verus!
