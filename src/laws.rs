//! Laws that relate the assembler, the synthesizer and their inputs, each
//! proved from the contracts of the functions it speaks of.

use crate::annotation::strs;
use crate::compile::{
    bad_action, channel_message_names, channel_names, compiled, first_bad_action, is_ref_to,
    message_ref, names_of_types, operation_names, operation_usable, usable_channels,
    usable_operations, TypeRegistry,
};
use crate::error::CompileError;
use crate::json::Json;
use crate::message::{
    branch_index, content_type_of, discriminator, message_out, spec_union_branches, MessageType,
};
use crate::meta::AsyncApiMeta;
use crate::model::{AsyncApiSpec, Message};
use crate::named_map::{dedup, last_index, lemma_dedup, lemma_last_index};
use crate::schema::{opt_model, schema_of};
use crate::spec_meta::{AsyncApiSpecMeta, OperationMeta};
use vstd::prelude::*;

verus! {

/// A compiled document carries exactly the title and version that the
/// specification gave.
pub proof fn law_info_is_given(
    meta: AsyncApiSpecMeta,
    declaration: Seq<char>,
    reg: TypeRegistry,
    r: Result<AsyncApiSpec, CompileError>,
)
    requires
        compiled(meta, declaration, reg, r),
        r is Ok,
    ensures
        meta.title is Some && meta.title->0@ == r->Ok_0.info.title@,
        meta.version is Some && meta.version->0@ == r->Ok_0.info.version@,
{
}

/// Compilation fails, naming the declaration, where the title or the
/// version is missing; it then returns no document.
pub proof fn law_missing_info_fails(
    meta: AsyncApiSpecMeta,
    declaration: Seq<char>,
    reg: TypeRegistry,
    r: Result<AsyncApiSpec, CompileError>,
)
    requires
        compiled(meta, declaration, reg, r),
        meta.title is None || meta.version is None,
    ensures
        r is Err,
        meta.title is None ==> r->Err_0.is_missing(declaration, "title"@),
        meta.title is Some ==> r->Err_0.is_missing(declaration, "version"@),
{
}

/// An operation whose action is neither `send` nor `receive` fails the
/// compilation of a specification that has its title and version; the
/// failure names the first such operation and its action. Only an
/// operation that gives a name, an action and a channel is judged.
pub proof fn law_bad_action_fails(
    meta: AsyncApiSpecMeta,
    declaration: Seq<char>,
    reg: TypeRegistry,
    r: Result<AsyncApiSpec, CompileError>,
    i: int,
)
    requires
        compiled(meta, declaration, reg, r),
        meta.title is Some,
        meta.version is Some,
        0 <= i < meta.operations@.len(),
        operation_usable(meta.operations@[i]),
        meta.operations@[i].action->0@ != "send"@,
        meta.operations@[i].action->0@ != "receive"@,
    ensures
        r is Err,
        exists|j: int|
            0 <= j <= i && r->Err_0.is_invalid_action(
                meta.operations@[j].name->0@,
                meta.operations@[j].action->0@,
            ),
{
    lemma_first_bad_exists(meta.operations@, i);
}

proof fn lemma_first_bad_exists(ops: Seq<OperationMeta>, i: int)
    requires
        0 <= i < ops.len(),
        bad_action(ops[i]),
    ensures
        0 <= first_bad_action(ops) <= i,
    decreases ops.len(),
{
    if i < ops.len() - 1 {
        assert(ops.drop_last()[i] == ops[i]);
        lemma_first_bad_exists(ops.drop_last(), i);
    } else if first_bad_action(ops.drop_last()) >= 0 {
        lemma_first_bad_bound(ops.drop_last());
    }
}

proof fn lemma_first_bad_bound(ops: Seq<OperationMeta>)
    ensures
        first_bad_action(ops) < ops.len(),
    decreases ops.len(),
{
    if ops.len() > 0 {
        lemma_first_bad_bound(ops.drop_last());
    }
}

/// Every operation of a compiled document refers to its channel as
/// `#/channels/{channel}`, where the channel is that of the last complete
/// operation record declared under the operation's name.
pub proof fn law_operation_channel_ref(
    meta: AsyncApiSpecMeta,
    declaration: Seq<char>,
    reg: TypeRegistry,
    r: Result<AsyncApiSpec, CompileError>,
    k: Seq<char>,
)
    requires
        compiled(meta, declaration, reg, r),
        r is Ok,
        r->Ok_0.operations is Some,
        r->Ok_0.operations->0.contains_key(k),
    ensures
        ({
            let us = usable_operations(meta.operations@);
            exists|i: int|
                0 <= i < us.len() && us[i].name->0@ == k
                    && r->Ok_0.operations->0.value_of(k).channel.reference@ == "#/channels/"@
                    + us[i].channel->0@
        }),
{
    let names = operation_names(usable_operations(meta.operations@));
    lemma_dedup(names);
    lemma_last_index(names, k);
    let i = last_index(names, k);
    assert(usable_operations(meta.operations@)[i].name->0@ == k);
}

/// An operation that lists message types refers, in order, to every message
/// of each of them: `#/components/messages/{name}` once per name, type by
/// type in the order listed, names in the order each type gives them.
pub proof fn law_operation_messages(
    meta: AsyncApiSpecMeta,
    declaration: Seq<char>,
    reg: TypeRegistry,
    r: Result<AsyncApiSpec, CompileError>,
    k: Seq<char>,
)
    requires
        compiled(meta, declaration, reg, r),
        r is Ok,
        r->Ok_0.operations is Some,
        r->Ok_0.operations->0.contains_key(k),
    ensures
        ({
            let us = usable_operations(meta.operations@);
            let op = us[last_index(operation_names(us), k)];
            let names = names_of_types(reg, strs(op.messages@));
            let o = r->Ok_0.operations->0.value_of(k);
            &&& op.name->0@ == k
            &&& op.messages@.len() > 0 ==> {
                &&& o.messages is Some
                &&& o.messages->0@.len() == names.len()
                &&& forall|j: int|
                    0 <= j < names.len() ==> is_ref_to(
                        #[trigger] o.messages->0@[j],
                        "#/components/messages/"@ + names[j],
                    )
            }
        }),
{
    let names = operation_names(usable_operations(meta.operations@));
    lemma_dedup(names);
    lemma_last_index(names, k);
}

/// The map of `refs` keyed by `keys`, read as reference strings in order.
pub open spec fn ref_strings(keys: Seq<Seq<char>>) -> Seq<Seq<char>> {
    keys.map_values(|k: Seq<char>| message_ref(k))
}

proof fn lemma_message_ref_injective(a: Seq<char>, b: Seq<char>)
    requires
        message_ref(a) == message_ref(b),
    ensures
        a == b,
{
    let p = "#/components/messages/"@;
    assert(a =~= message_ref(a).skip(p.len() as int));
    assert(b =~= message_ref(b).skip(p.len() as int));
}

proof fn lemma_dedup_ref_strings(s: Seq<Seq<char>>)
    ensures
        dedup(ref_strings(s)) == ref_strings(dedup(s)),
    decreases s.len(),
{
    if s.len() > 0 {
        let p = s.drop_last();
        let x = s.last();
        lemma_dedup_ref_strings(p);
        assert(ref_strings(s).drop_last() =~= ref_strings(p));
        let d = dedup(p);
        assert(ref_strings(d).contains(message_ref(x)) <==> d.contains(x)) by {
            if ref_strings(d).contains(message_ref(x)) {
                let j = choose|j: int| 0 <= j < ref_strings(d).len() && ref_strings(d)[j] == message_ref(x);
                lemma_message_ref_injective(d[j], x);
            }
            if d.contains(x) {
                let j = choose|j: int| 0 <= j < d.len() && d[j] == x;
                assert(ref_strings(d)[j] == message_ref(x));
            }
        }
        assert(ref_strings(d.push(x)) =~= ref_strings(d).push(message_ref(x)));
    }
}

/// A channel of a compiled document holds the message references of every
/// complete operation on it, without repeats, in order of first appearance: its
/// names are the distinct message names of those operations, each
/// referring to `#/components/messages/{name}`, and read as reference
/// strings they are the distinct references of those operations. A channel
/// that no operation gives a message holds none.
pub proof fn law_channel_messages(
    meta: AsyncApiSpecMeta,
    declaration: Seq<char>,
    reg: TypeRegistry,
    r: Result<AsyncApiSpec, CompileError>,
    k: Seq<char>,
)
    requires
        compiled(meta, declaration, reg, r),
        r is Ok,
        r->Ok_0.channels is Some,
        r->Ok_0.channels->0.contains_key(k),
    ensures
        ({
            let names = channel_message_names(reg, meta.operations@, k);
            let c = r->Ok_0.channels->0.value_of(k);
            &&& names.len() == 0 ==> c.messages is None
            &&& names.len() > 0 ==> {
                &&& c.messages is Some
                &&& c.messages->0.keys() == dedup(names)
                &&& ref_strings(c.messages->0.keys()) == dedup(ref_strings(names))
                &&& forall|n: Seq<char>|
                    c.messages->0.contains_key(n) ==> is_ref_to(
                        #[trigger] c.messages->0.value_of(n),
                        message_ref(n),
                    )
            }
        }),
{
    let us = usable_channels(meta.channels@);
    let names = channel_names(us);
    lemma_dedup(names);
    lemma_last_index(names, k);
    let i = last_index(names, k);
    assert(us[i].name->0@ == k);
    lemma_dedup_ref_strings(channel_message_names(reg, meta.operations@, k));
}

/// A union without a tag property, or whose schema has no disjunction,
/// gives none of its messages a payload; the messages are still all there.
pub proof fn law_union_without_branches(t: MessageType, schema: Json, msgs: Seq<Message>, i: int)
    requires
        msgs.len() == t.messages@.len(),
        forall|m: int|
            0 <= m < msgs.len() ==> message_out(&t, schema, t.messages@[m], #[trigger] msgs[m]),
        t.is_union(),
        t.tag is None || spec_union_branches(schema) is None,
        0 <= i < msgs.len(),
    ensures
        msgs.len() == t.messages@.len(),
        msgs[i].payload is None,
{
    assert(message_out(&t, schema, t.messages@[i], msgs[i]));
}

/// The content type of a message: the one given wins whatever else holds;
/// without one, a message that triggers binary frames is
/// `application/octet-stream` and any other `application/json`.
pub proof fn law_content_type_default(d: AsyncApiMeta)
    ensures
        d.content_type is Some ==> content_type_of(d) == d.content_type->0@,
        d.content_type is None && d.triggers_binary ==> content_type_of(d)
            == "application/octet-stream"@,
        d.content_type is None && !d.triggers_binary ==> content_type_of(d) == "application/json"@,
{
}

proof fn lemma_branch_index_unique(bs: Seq<Json>, tag: Seq<char>, name: Seq<char>, j: int)
    requires
        0 <= j < bs.len(),
        discriminator(bs[j], tag) == Some(Json::Str(name)),
        forall|a: int, b: int|
            0 <= a < b < bs.len() ==> discriminator(bs[a], tag) != discriminator(bs[b], tag),
    ensures
        branch_index(bs, tag, name) == j,
    decreases bs.len(),
{
    let p = bs.drop_last();
    if j < bs.len() - 1 {
        assert(p[j] == bs[j]);
        assert forall|a: int, b: int| 0 <= a < b < p.len() implies discriminator(p[a], tag)
            != discriminator(p[b], tag) by {
            assert(p[a] == bs[a] && p[b] == bs[b]);
        }
        lemma_branch_index_unique(p, tag, name, j);
    } else {
        lemma_branch_index_absent(p, tag, name, bs, j);
    }
}

proof fn lemma_branch_index_absent(p: Seq<Json>, tag: Seq<char>, name: Seq<char>, bs: Seq<Json>, j: int)
    requires
        0 <= j,
        j == bs.len() - 1,
        p == bs.drop_last(),
        discriminator(bs[j], tag) == Some(Json::Str(name)),
        forall|a: int, b: int|
            0 <= a < b < bs.len() ==> discriminator(bs[a], tag) != discriminator(bs[b], tag),
    ensures
        branch_index(p, tag, name) < 0,
{
    lemma_branch_index_none(p, tag, name);
    assert forall|a: int| 0 <= a < p.len() implies discriminator(p[a], tag) != Some(
        Json::Str(name),
    ) by {
        assert(p[a] == bs[a]);
        assert(discriminator(bs[a], tag) != discriminator(bs[j], tag));
    }
}

proof fn lemma_branch_index_none(bs: Seq<Json>, tag: Seq<char>, name: Seq<char>)
    ensures
        (forall|a: int| 0 <= a < bs.len() ==> discriminator(bs[a], tag) != Some(Json::Str(name)))
            ==> branch_index(bs, tag, name) < 0,
    decreases bs.len(),
{
    if bs.len() > 0 {
        lemma_branch_index_none(bs.drop_last(), tag, name);
        if forall|a: int| 0 <= a < bs.len() ==> discriminator(bs[a], tag) != Some(Json::Str(name)) {
            assert forall|a: int| 0 <= a < bs.len() - 1 implies discriminator(
                bs.drop_last()[a],
                tag,
            ) != Some(Json::Str(name)) by {
                assert(bs.drop_last()[a] == bs[a]);
            }
        }
    }
}

/// Cutting a tagged union: where the disjunction's branches carry distinct
/// discriminators, the messages of the type are as many as its variants,
/// and the payload of each is exactly the branch whose discriminator is the
/// message's name.
pub proof fn law_union_payloads(
    t: MessageType,
    schema: Json,
    msgs: Seq<Message>,
    bs: Seq<Json>,
    i: int,
    j: int,
)
    requires
        msgs.len() == t.messages@.len(),
        forall|m: int|
            0 <= m < msgs.len() ==> message_out(&t, schema, t.messages@[m], #[trigger] msgs[m]),
        t.is_union(),
        t.tag is Some,
        spec_union_branches(schema) == Some(bs),
        forall|a: int, b: int|
            0 <= a < b < bs.len() ==> discriminator(bs[a], t.tag->0@) != discriminator(
                bs[b],
                t.tag->0@,
            ),
        0 <= i < msgs.len(),
        0 <= j < bs.len(),
        discriminator(bs[j], t.tag->0@) == Some(Json::Str(t.messages@[i].name@)),
    ensures
        msgs.len() == t.messages@.len(),
        opt_model(msgs[i].payload) == schema_of(bs[j]),
{
    assert(message_out(&t, schema, t.messages@[i], msgs[i]));
    lemma_branch_index_unique(bs, t.tag->0@, t.messages@[i].name@, j);
}

} // verus!
