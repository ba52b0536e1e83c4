//! Typed records extracted from annotation trees: the documentation of one
//! message, and the servers, channels and operations of a specification.
//!
//! Extraction is best effort. An entry of the wrong shape is passed over and
//! the rest of the block still counts. A nested variable or parameter block
//! without a name is dropped. A server, channel or operation block always
//! yields a record; a required field it lacks is left unset, for the
//! assembler to judge.

use crate::annotation::{
    attrs_flag, attrs_str, first_attrs_str, has_flag, opt_view, read_flag, read_str, str_eq,
    Attribute,
};
use vstd::prelude::*;

verus! {

/// Documentation attached to one message by `#[asyncapi(...)]`.
#[derive(Debug)]
pub struct AsyncApiMeta {
    pub summary: Option<String>,
    pub description: Option<String>,
    pub title: Option<String>,
    pub content_type: Option<String>,
    pub triggers_binary: bool,
}

/// What the `#[asyncapi(...)]` attributes among `attrs` say of a message.
pub open spec fn message_doc(attrs: Seq<Attribute>, m: AsyncApiMeta) -> bool {
    &&& opt_view(m.summary) == attrs_str(attrs, "asyncapi"@, "summary"@)
    &&& opt_view(m.description) == attrs_str(attrs, "asyncapi"@, "description"@)
    &&& opt_view(m.title) == attrs_str(attrs, "asyncapi"@, "title"@)
    &&& opt_view(m.content_type) == attrs_str(attrs, "asyncapi"@, "content_type"@)
    &&& m.triggers_binary == attrs_flag(attrs, "asyncapi"@, "triggers_binary"@)
}

/// Reads the message documentation from the `#[asyncapi(...)]` attributes;
/// where a field is given twice the later one counts.
pub fn extract_asyncapi_meta(attrs: &[Attribute]) -> (r: AsyncApiMeta)
    ensures
        message_doc(attrs@, r),
{
    let mut meta = AsyncApiMeta {
        summary: None,
        description: None,
        title: None,
        content_type: None,
        triggers_binary: false,
    };
    let mut i: usize = 0;
    while i < attrs.len()
        invariant
            i <= attrs@.len(),
            opt_view(meta.summary) == attrs_str(attrs@.take(i as int), "asyncapi"@, "summary"@),
            opt_view(meta.description) == attrs_str(
                attrs@.take(i as int),
                "asyncapi"@,
                "description"@,
            ),
            opt_view(meta.title) == attrs_str(attrs@.take(i as int), "asyncapi"@, "title"@),
            opt_view(meta.content_type) == attrs_str(
                attrs@.take(i as int),
                "asyncapi"@,
                "content_type"@,
            ),
            meta.triggers_binary == attrs_flag(
                attrs@.take(i as int),
                "asyncapi"@,
                "triggers_binary"@,
            ),
        decreases attrs@.len() - i,
    {
        let attr = &attrs[i];
        let ghost pre = attrs@.take(i as int);
        let ghost next = attrs@.take(i + 1);
        assert(next.drop_last() =~= pre);
        assert(next.last() == *attr);
        if str_eq(&attr.path, "asyncapi") {
            let summary = read_str(&attr.items, "summary");
            if summary.is_some() {
                meta.summary = summary;
            }
            let description = read_str(&attr.items, "description");
            if description.is_some() {
                meta.description = description;
            }
            let title = read_str(&attr.items, "title");
            if title.is_some() {
                meta.title = title;
            }
            let content_type = read_str(&attr.items, "content_type");
            if content_type.is_some() {
                meta.content_type = content_type;
            }
            if read_flag(&attr.items, "triggers_binary") {
                meta.triggers_binary = true;
            }
        }
        proof {
            let p = "asyncapi"@;
            let f = "triggers_binary"@;
            if meta.triggers_binary {
                if !attrs_flag(pre, p, f) {
                    assert(next[i as int] == *attr);
                }
            } else {
                assert forall|j: int| 0 <= j < next.len() implies !(next[j].path@ == p
                    && has_flag(next[j].items@, f)) by {
                    if j < i {
                        assert(pre[j] == next[j]);
                    }
                }
            }
            if attrs_flag(pre, p, f) {
                let j = choose|j: int| 0 <= j < pre.len() && pre[j].path@ == p && has_flag(pre[j].items@, f);
                assert(next[j] == pre[j]);
            }
        }
        i = i + 1;
    }
    assert(attrs@.take(attrs@.len() as int) =~= attrs@);
    meta
}

/// Reads the name given by `#[serde(rename = "...")]`: the first `serde`
/// attribute that gives one counts.
pub fn extract_serde_rename(attrs: &[Attribute]) -> (r: Option<String>)
    ensures
        opt_view(r) == first_attrs_str(attrs@, "serde"@, "rename"@),
{
    first_serde_str(attrs, "rename")
}

/// Reads the tag field given by `#[serde(tag = "...")]`: the first `serde`
/// attribute that gives one counts.
pub fn extract_serde_tag(attrs: &[Attribute]) -> (r: Option<String>)
    ensures
        opt_view(r) == first_attrs_str(attrs@, "serde"@, "tag"@),
{
    first_serde_str(attrs, "tag")
}

fn first_serde_str(attrs: &[Attribute], key: &str) -> (r: Option<String>)
    ensures
        opt_view(r) == first_attrs_str(attrs@, "serde"@, key@),
{
    let mut i: usize = 0;
    while i < attrs.len()
        invariant
            i <= attrs@.len(),
            first_attrs_str(attrs@.take(i as int), "serde"@, key@) is None,
        decreases attrs@.len() - i,
    {
        let ghost pre = attrs@.take(i as int);
        assert(attrs@.take(i + 1).drop_last() =~= pre);
        if str_eq(&attrs[i].path, "serde") {
            let v = read_str(&attrs[i].items, key);
            if v.is_some() {
                proof {
                    lemma_first_attrs_str_prefix(attrs@, i + 1, "serde"@, key@);
                }
                return v;
            }
        }
        i = i + 1;
    }
    assert(attrs@.take(attrs@.len() as int) =~= attrs@);
    None
}

proof fn lemma_first_attrs_str_prefix(attrs: Seq<Attribute>, n: int, path: Seq<char>, key: Seq<char>)
    requires
        0 <= n <= attrs.len(),
        first_attrs_str(attrs.take(n), path, key) is Some,
    ensures
        first_attrs_str(attrs, path, key) == first_attrs_str(attrs.take(n), path, key),
    decreases attrs.len() - n,
{
    if n < attrs.len() {
        assert(attrs.take(n + 1).drop_last() =~= attrs.take(n));
        lemma_first_attrs_str_prefix(attrs, n + 1, path, key);
    } else {
        assert(attrs.take(n) =~= attrs);
    }
}

} // verus!
