//! Tool names: normalisation and the prefixed names under which the catalog
//! lists the tools of each backend.

use vstd::prelude::*;
use crate::text::{joined, push_char};

verus! {

/// What normalisation does to one character: a dash becomes an underscore,
/// every other character stays.
pub open spec fn sanitized_char(c: char) -> char {
    if c == '-' {
        '_'
    } else {
        c
    }
}

/// The normalised form of a tool name.
pub open spec fn sanitized(name: Seq<char>) -> Seq<char> {
    Seq::new(name.len(), |i: int| sanitized_char(name[i]))
}

/// Replaces every `-` in `name` with `_` and leaves the rest as it is.
pub fn sanitize_tool_name(name: &str) -> (out: String)
    ensures
        out@ == sanitized(name@),
{
    let mut out = String::new();
    for c in it: name.chars()
        invariant
            it.seq() == name@,
            out@ == sanitized(name@.take(it.index() as int)),
    {
        if c == '-' {
            push_char(&mut out, '_');
        } else {
            push_char(&mut out, c);
        }
        assert(out@ =~= sanitized(name@.take(it.index() + 1)));
    }
    assert(name@.take(name@.len() as int) =~= name@);
    out
}

/// The name under which the catalog lists the tool `tool` of the backend
/// `backend`: the backend's name, an underscore, the normalised tool name.
pub open spec fn prefixed(backend: Seq<char>, tool: Seq<char>) -> Seq<char> {
    backend + "_"@ + sanitized(tool)
}

/// Builds the name under which the catalog lists a backend's tool.
pub fn prefixed_name(backend: &str, tool: &str) -> (out: String)
    ensures
        out@ == prefixed(backend@, tool@),
{
    let stem = joined(backend, "_");
    let tail = sanitize_tool_name(tool);
    joined(stem.as_str(), tail.as_str())
}

/// Normalising twice is normalising once.
pub proof fn lemma_sanitize_idempotent(name: Seq<char>)
    ensures
        sanitized(sanitized(name)) == sanitized(name),
{
    assert(sanitized(sanitized(name)) =~= sanitized(name));
}

/// A normalised name is as long as the name, holds no dash, and differs
/// from the name only where the name has one.
pub proof fn lemma_sanitized_shape(name: Seq<char>)
    ensures
        sanitized(name).len() == name.len(),
        forall|i: int| 0 <= i < name.len() ==> sanitized(name)[i] != '-',
        forall|i: int| 0 <= i < name.len() && name[i] != '-' ==> sanitized(name)[i] == name[i],
        forall|i: int| 0 <= i < name.len() && name[i] == '-' ==> sanitized(name)[i] == '_',
{
}

/// A name without a dash is its own normal form.
pub proof fn lemma_sanitize_keeps_dashless(name: Seq<char>)
    requires
        forall|i: int| 0 <= i < name.len() ==> name[i] != '-',
    ensures
        sanitized(name) == name,
{
    assert(sanitized(name) =~= name);
}

/// Two backends with different names list a tool of the same name under
/// different prefixed names.
pub proof fn lemma_prefix_separates_backends(a: Seq<char>, b: Seq<char>, tool: Seq<char>)
    requires
        a != b,
    ensures
        prefixed(a, tool) != prefixed(b, tool),
{
    let tail = "_"@ + sanitized(tool);
    if prefixed(a, tool) == prefixed(b, tool) {
        assert(prefixed(a, tool) =~= a + tail);
        assert(prefixed(b, tool) =~= b + tail);
        assert((a + tail).len() == a.len() + tail.len());
        assert((b + tail).len() == b.len() + tail.len());
        assert(a.len() == b.len());
        assert forall|i: int| 0 <= i < a.len() implies a[i] == b[i] by {
            assert((a + tail)[i] == a[i]);
            assert((b + tail)[i] == b[i]);
        }
        assert(a =~= b);
    }
}

/// One backend lists two tools under one prefixed name exactly when the
/// tools have the same normal form.
pub proof fn lemma_prefix_within_backend(backend: Seq<char>, x: Seq<char>, y: Seq<char>)
    ensures
        prefixed(backend, x) == prefixed(backend, y) <==> sanitized(x) == sanitized(y),
{
    let stem = backend + "_"@;
    if prefixed(backend, x) == prefixed(backend, y) {
        let sx = sanitized(x);
        let sy = sanitized(y);
        assert((stem + sx).len() == stem.len() + sx.len());
        assert((stem + sy).len() == stem.len() + sy.len());
        assert forall|i: int| 0 <= i < sx.len() implies sx[i] == sy[i] by {
            assert((stem + sx)[stem.len() + i] == sx[i]);
            assert((stem + sy)[stem.len() + i] == sy[i]);
        }
        assert(sx =~= sy);
    }
}

} // verus!
