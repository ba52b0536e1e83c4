//! The annotation tree that declarations carry, and the readers that pull
//! single fields out of it.
//!
//! An attribute such as `#[asyncapi_server(name = "prod", variable(name =
//! "id"))]` arrives as an [`Attribute`] whose path is `asyncapi_server` and
//! whose items are the comma-separated entries inside the parentheses.

use vstd::prelude::*;

verus! {

/// What follows the key of one entry.
#[derive(Debug)]
pub enum MetaValue {
    /// A bare key: `triggers_binary`, or one type path in a list of types.
    Flag,
    /// `key = "text"`.
    Str(String),
    /// `key = ["a", "b"]`: a bracketed list of string literals.
    StrList(Vec<String>),
    /// `key = [A, b::C]`: a bracketed list of type paths.
    PathList(Vec<String>),
    /// `key(...)`: a nested block of entries.
    Nested(Vec<MetaItem>),
    /// Any other shape: a number, a list that mixes kinds, a stray token.
    Other,
}

/// One entry of an attribute: its key and what follows it.
#[derive(Debug)]
pub struct MetaItem {
    pub key: String,
    pub value: MetaValue,
}

/// One attribute: its path (`asyncapi`, `serde`, ...) and its entries.
#[derive(Debug)]
pub struct Attribute {
    pub path: String,
    pub items: Vec<MetaItem>,
}

pub open spec fn opt_view(o: Option<String>) -> Option<Seq<char>> {
    match o {
        Some(s) => Some(s@),
        None => None,
    }
}

pub open spec fn strs(v: Seq<String>) -> Seq<Seq<char>> {
    v.map_values(|s: String| s@)
}

/// The text of the last entry under `key` that holds a string; entries of
/// another shape are passed over.
pub open spec fn str_value(items: Seq<MetaItem>, key: Seq<char>) -> Option<Seq<char>>
    decreases items.len(),
{
    if items.len() == 0 {
        None
    } else if items.last().key@ == key && items.last().value is Str {
        Some(items.last().value->Str_0@)
    } else {
        str_value(items.drop_last(), key)
    }
}

/// The strings of the last entry under `key` that holds a list of strings;
/// empty where there is none.
pub open spec fn str_list_value(items: Seq<MetaItem>, key: Seq<char>) -> Seq<Seq<char>>
    decreases items.len(),
{
    if items.len() == 0 {
        Seq::empty()
    } else if items.last().key@ == key && items.last().value is StrList {
        strs(items.last().value->StrList_0@)
    } else {
        str_list_value(items.drop_last(), key)
    }
}

/// The paths of the last entry under `key` that holds a list of paths;
/// empty where there is none.
pub open spec fn path_list_value(items: Seq<MetaItem>, key: Seq<char>) -> Seq<Seq<char>>
    decreases items.len(),
{
    if items.len() == 0 {
        Seq::empty()
    } else if items.last().key@ == key && items.last().value is PathList {
        strs(items.last().value->PathList_0@)
    } else {
        path_list_value(items.drop_last(), key)
    }
}

/// Whether `key` stands as a bare flag among the entries.
pub open spec fn has_flag(items: Seq<MetaItem>, key: Seq<char>) -> bool {
    exists|i: int| 0 <= i < items.len() && items[i].key@ == key && items[i].value is Flag
}

/// The entries of every nested block under `key`, in order.
pub open spec fn nested_blocks(items: Seq<MetaItem>, key: Seq<char>) -> Seq<Seq<MetaItem>>
    decreases items.len(),
{
    if items.len() == 0 {
        Seq::empty()
    } else if items.last().key@ == key && items.last().value is Nested {
        nested_blocks(items.drop_last(), key).push(items.last().value->Nested_0@)
    } else {
        nested_blocks(items.drop_last(), key)
    }
}

/// Within the attributes under `path`, the last string given for `key`.
pub open spec fn attrs_str(attrs: Seq<Attribute>, path: Seq<char>, key: Seq<char>) -> Option<
    Seq<char>,
>
    decreases attrs.len(),
{
    if attrs.len() == 0 {
        None
    } else if attrs.last().path@ == path && str_value(attrs.last().items@, key) is Some {
        str_value(attrs.last().items@, key)
    } else {
        attrs_str(attrs.drop_last(), path, key)
    }
}

/// The string given for `key` in the first attribute under `path` that gives
/// one.
pub open spec fn first_attrs_str(attrs: Seq<Attribute>, path: Seq<char>, key: Seq<char>) -> Option<
    Seq<char>,
>
    decreases attrs.len(),
{
    if attrs.len() == 0 {
        None
    } else if first_attrs_str(attrs.drop_last(), path, key) is Some {
        first_attrs_str(attrs.drop_last(), path, key)
    } else if attrs.last().path@ == path {
        str_value(attrs.last().items@, key)
    } else {
        None
    }
}

/// Whether some attribute under `path` holds the flag `key`.
pub open spec fn attrs_flag(attrs: Seq<Attribute>, path: Seq<char>, key: Seq<char>) -> bool {
    exists|i: int| 0 <= i < attrs.len() && attrs[i].path@ == path && has_flag(attrs[i].items@, key)
}

pub fn str_eq(a: &String, b: &str) -> (r: bool)
    ensures
        r == (a@ == b@),
{
    let bs = String::from_str(b);
    *a == bs
}

pub fn clone_strings(v: &Vec<String>) -> (r: Vec<String>)
    ensures
        strs(r@) == strs(v@),
{
    let mut r: Vec<String> = Vec::new();
    let mut i: usize = 0;
    while i < v.len()
        invariant
            i <= v@.len(),
            strs(r@) == strs(v@.take(i as int)),
        decreases v@.len() - i,
    {
        r.push(v[i].clone());
        assert(strs(v@.take(i + 1)) =~= strs(v@.take(i as int)).push(v@[i as int]@));
        i = i + 1;
    }
    assert(v@.take(v@.len() as int) =~= v@);
    r
}

/// Appends copies of the strings of `src` to `dst`.
pub fn append_strings(dst: &mut Vec<String>, src: &Vec<String>)
    ensures
        strs(final(dst)@) == strs(old(dst)@) + strs(src@),
{
    let ghost before = dst@;
    let mut j: usize = 0;
    while j < src.len()
        invariant
            j <= src@.len(),
            dst@ == before + src@.take(j as int),
        decreases src@.len() - j,
    {
        dst.push(src[j].clone());
        assert(src@.take(j + 1) =~= src@.take(j as int).push(src@[j as int]));
        j = j + 1;
    }
    assert(src@.take(src@.len() as int) =~= src@);
    assert(strs(before + src@) =~= strs(before) + strs(src@));
}

pub fn clone_opt(o: &Option<String>) -> (r: Option<String>)
    ensures
        opt_view(r) == opt_view(*o),
{
    match o {
        Some(s) => Some(s.clone()),
        None => None,
    }
}

/// Reads the string given for `key`; the last one counts.
pub fn read_str(items: &Vec<MetaItem>, key: &str) -> (r: Option<String>)
    ensures
        opt_view(r) == str_value(items@, key@),
{
    let mut r: Option<String> = None;
    let mut i: usize = 0;
    while i < items.len()
        invariant
            i <= items@.len(),
            opt_view(r) == str_value(items@.take(i as int), key@),
        decreases items@.len() - i,
    {
        assert(items@.take(i + 1).drop_last() =~= items@.take(i as int));
        if str_eq(&items[i].key, key) {
            match &items[i].value {
                MetaValue::Str(s) => {
                    r = Some(s.clone());
                },
                _ => {},
            }
        }
        i = i + 1;
    }
    assert(items@.take(items@.len() as int) =~= items@);
    r
}

/// Reads the list of strings given for `key`; the last one counts.
pub fn read_str_list(items: &Vec<MetaItem>, key: &str) -> (r: Vec<String>)
    ensures
        strs(r@) == str_list_value(items@, key@),
{
    let mut r: Vec<String> = Vec::new();
    let mut i: usize = 0;
    assert(strs(r@) =~= Seq::<Seq<char>>::empty());
    while i < items.len()
        invariant
            i <= items@.len(),
            strs(r@) == str_list_value(items@.take(i as int), key@),
        decreases items@.len() - i,
    {
        assert(items@.take(i + 1).drop_last() =~= items@.take(i as int));
        if str_eq(&items[i].key, key) {
            match &items[i].value {
                MetaValue::StrList(l) => {
                    r = clone_strings(l);
                },
                _ => {},
            }
        }
        i = i + 1;
    }
    assert(items@.take(items@.len() as int) =~= items@);
    r
}

/// Reads the list of type paths given for `key`; the last one counts.
pub fn read_path_list(items: &Vec<MetaItem>, key: &str) -> (r: Vec<String>)
    ensures
        strs(r@) == path_list_value(items@, key@),
{
    let mut r: Vec<String> = Vec::new();
    let mut i: usize = 0;
    assert(strs(r@) =~= Seq::<Seq<char>>::empty());
    while i < items.len()
        invariant
            i <= items@.len(),
            strs(r@) == path_list_value(items@.take(i as int), key@),
        decreases items@.len() - i,
    {
        assert(items@.take(i + 1).drop_last() =~= items@.take(i as int));
        if str_eq(&items[i].key, key) {
            match &items[i].value {
                MetaValue::PathList(l) => {
                    r = clone_strings(l);
                },
                _ => {},
            }
        }
        i = i + 1;
    }
    assert(items@.take(items@.len() as int) =~= items@);
    r
}

/// Whether `key` stands as a bare flag.
pub fn read_flag(items: &Vec<MetaItem>, key: &str) -> (r: bool)
    ensures
        r == has_flag(items@, key@),
{
    let mut i: usize = 0;
    while i < items.len()
        invariant
            i <= items@.len(),
            forall|j: int| 0 <= j < i ==> !(items@[j].key@ == key@ && items@[j].value is Flag),
        decreases items@.len() - i,
    {
        if str_eq(&items[i].key, key) {
            if let MetaValue::Flag = &items[i].value {
                return true;
            }
        }
        i = i + 1;
    }
    false
}

} // verus!
