//! Values in batches: many values in few envelopes, and back.
use vstd::prelude::*;

use crate::string_map::{assoc_after_insert, assoc_insert, StringMap};
use crate::text::text_eq;
use crate::value::{array_view, json_views, object_view, Json, JsonView};
use crate::ws::server::{service_view, EnvelopeView, WsEnvelope};

verus! {

/// How many values a batch holds unless another number is given.
pub const DEFAULT_MAX_BATCH_SIZE: usize = 5;

/// A new identifier: the text of `uuid::Uuid::new_v4`, which is random. It has 36
/// characters.
#[verifier::external_body]
fn fresh_id() -> (r: String)
    ensures
        r@.len() == 36,
{
    uuid::Uuid::new_v4().to_string()
}

/// The values in groups of `n`, the last group holding what is left.
pub open spec fn groups(items: Seq<JsonView>, n: nat) -> Seq<Seq<JsonView>>
    decreases items.len(),
{
    if items.len() == 0 || n == 0 {
        Seq::empty()
    } else if items.len() <= n {
        seq![items]
    } else {
        seq![items.take(n as int)] + groups(items.skip(n as int), n)
    }
}

/// The envelope of a batch.
pub open spec fn batch_view(workflow: Seq<char>, id: Seq<char>, items: Seq<JsonView>) -> EnvelopeView {
    service_view(
        workflow,
        "batch"@,
        None,
        JsonView::Object(
            assoc_insert(
                seq![("batch_id"@, JsonView::Text(id))],
                "items"@,
                JsonView::Array(items),
            ),
        ),
    )
}

/// Whether envelopes are the batches of the values, under whatever identifiers.
pub open spec fn are_batches(
    workflow: Seq<char>,
    items: Seq<JsonView>,
    n: nat,
    envelopes: Seq<EnvelopeView>,
) -> bool {
    &&& envelopes.len() == groups(items, n).len()
    &&& forall|i: int|
        0 <= i < envelopes.len() ==> is_batch(
            workflow,
            groups(items, n)[i],
            #[trigger] envelopes[i],
        )
}

/// Whether an envelope is the batch of the values, under whatever identifier.
pub open spec fn is_batch(workflow: Seq<char>, items: Seq<JsonView>, envelope: EnvelopeView) -> bool {
    exists|id: Seq<char>| id.len() == 36 && envelope == #[trigger] batch_view(workflow, id, items)
}

/// The views of a list of envelopes.
pub open spec fn envelope_views(v: Seq<WsEnvelope>) -> Seq<EnvelopeView> {
    Seq::new(v.len(), |i: int| v[i]@)
}

/// The envelope of a batch under the given identifier.
pub fn batch_envelope(workflow: &str, id: String, items: Vec<Json>) -> (r: WsEnvelope)
    ensures
        r@ == batch_view(workflow@, id@, json_views(items@)),
{
    broadcast use object_view, array_view;

    let mut info: StringMap<Json> = StringMap::new();
    let ghost i = id@;
    info.insert("batch_id".to_owned(), Json::String(id));
    proof {
        assert(info@ =~= seq![("batch_id"@, JsonView::Text(i))]);
    }
    info.insert("items".to_owned(), Json::Array(items));
    WsEnvelope::service(workflow, "batch", None, Json::Object(info))
}

proof fn groups_step(items: Seq<JsonView>, n: nat)
    requires
        n > 0,
        items.len() > 0,
    ensures
        ({
            let k = if items.len() <= n {
                items.len()
            } else {
                n
            };
            groups(items, n) == seq![items.take(k as int)] + groups(items.skip(k as int), n)
        }),
{
    if items.len() <= n {
        let k = items.len();
        assert(items.take(k as int) =~= items);
        assert(items.skip(k as int).len() == 0);
        assert(groups(items.skip(k as int), n) =~= Seq::empty());
        assert(seq![items] + Seq::<Seq<JsonView>>::empty() =~= seq![items]);
    }
}

/// Packs values into envelopes of at most the given number of values each.
pub fn pack_batch(workflow: &str, items: Vec<Json>, max_batch_size: usize) -> (r: Vec<WsEnvelope>)
    requires
        max_batch_size > 0,
    ensures
        are_batches(
            workflow@,
            json_views(items@),
            max_batch_size as nat,
            envelope_views(r@),
        ),
{
    let ghost n = max_batch_size as nat;
    let ghost all = json_views(items@);
    let ghost target = groups(all, n);
    let mut out: Vec<WsEnvelope> = Vec::new();
    let mut i: usize = 0;
    proof {
        assert(all.skip(0) =~= all);
        assert(envelope_views(out@) =~= Seq::empty());
        assert(target.take(0) + groups(all.skip(0), n) =~= target);
    }
    while i < items.len()
        invariant
            i <= items@.len(),
            n == max_batch_size,
            n > 0,
            all == json_views(items@),
            target == groups(all, n),
            out@.len() <= target.len(),
            target == target.take(out@.len() as int) + groups(all.skip(i as int), n),
            forall|j: int|
                0 <= j < out@.len() ==> is_batch(
                    workflow@,
                    target[j],
                    #[trigger] envelope_views(out@)[j],
                ),
        decreases items@.len() - i,
    {
        let left: usize = items.len() - i;
        let size: usize = if left <= max_batch_size {
            left
        } else {
            max_batch_size
        };
        let mut group: Vec<Json> = Vec::new();
        let total: usize = items.len();
        let mut k: usize = 0;
        while k < size
            invariant
                k <= size,
                total == items@.len(),
                i + size <= total,
                group@.len() == k,
                forall|j: int| 0 <= j < k ==> (#[trigger] group@[j])@ == items@[i + j]@,
            decreases size - k,
        {
            group.push(items[i + k].copy());
            k = k + 1;
        }
        let ghost rest = all.skip(i as int);
        let ghost done = out@.len() as int;
        proof {
            groups_step(rest, n);
            assert(json_views(group@) =~= rest.take(size as int));
            assert(rest.skip(size as int) =~= all.skip(i + size));
            assert(target[done] == groups(rest, n)[0]);
            assert(target[done] == json_views(group@));
        }
        let id = fresh_id();
        let ghost g = json_views(group@);
        let ghost id_view = id@;
        let ghost before = envelope_views(out@);
        let envelope = batch_envelope(workflow, id, group);
        let ghost e = envelope@;
        out.push(envelope);
        proof {
            assert(e == batch_view(workflow@, id_view, g));
            assert(is_batch(workflow@, target[done], e));
            assert(envelope_views(out@) =~= before.push(e));
            assert(target =~= target.take(done + 1) + groups(all.skip(i + size), n));
        }
        i = i + size;
    }
    proof {
        assert(groups(all.skip(i as int), n) =~= Seq::empty());
        assert(target.take(out@.len() as int).len() == target.len());
    }
    out
}

/// The values of a batch, or what is wrong with the envelope.
pub open spec fn unpacked(envelope: EnvelopeView) -> Result<Seq<JsonView>, Seq<char>> {
    if envelope.cmd != "batch"@ {
        Err("not a batch message"@)
    } else {
        match envelope.info.get("items"@) {
            Some(JsonView::Array(items)) => if items.len() == 0 {
                Err("batch items is empty"@)
            } else {
                Ok(items)
            },
            _ => Err("batch items is missing"@),
        }
    }
}

/// Takes the values out of a batch.
pub fn unpack_batch(envelope: &WsEnvelope) -> (r: Result<Vec<Json>, String>)
    ensures
        match r {
            Ok(items) => unpacked(envelope@) == Ok::<Seq<JsonView>, Seq<char>>(
                json_views(items@),
            ),
            Err(e) => unpacked(envelope@) == Err::<Seq<JsonView>, Seq<char>>(e@),
        },
{
    broadcast use array_view;

    if !text_eq(envelope.cmd.as_str(), "batch") {
        return Err("not a batch message".to_owned());
    }
    match envelope.info.get("items") {
        Some(Json::Array(items)) => {
            if items.len() == 0 {
                return Err("batch items is empty".to_owned());
            }
            let mut out: Vec<Json> = Vec::new();
            let mut i: usize = 0;
            while i < items.len()
                invariant
                    i <= items@.len(),
                    out@.len() == i,
                    forall|j: int| 0 <= j < i ==> (#[trigger] out@[j])@ == items@[j]@,
                decreases items@.len() - i,
            {
                out.push(items[i].copy());
                i = i + 1;
            }
            proof {
                assert(json_views(out@) =~= json_views(items@));
            }
            Ok(out)
        },
        _ => Err("batch items is missing".to_owned()),
    }
}

// ---------------------------------------------------------------------------
// Laws
// ---------------------------------------------------------------------------

/// The values of several groups, one after the other.
pub open spec fn flatten(parts: Seq<Seq<JsonView>>) -> Seq<JsonView>
    decreases parts.len(),
{
    if parts.len() == 0 {
        Seq::empty()
    } else {
        parts[0] + flatten(parts.skip(1))
    }
}

/// The groups, one after the other, are the values; no group is empty or too large.
pub proof fn groups_hold_everything(items: Seq<JsonView>, n: nat)
    requires
        n > 0,
    ensures
        flatten(groups(items, n)) == items,
        forall|i: int|
            0 <= i < groups(items, n).len() ==> 0 < (#[trigger] groups(items, n)[i]).len() <= n,
    decreases items.len(),
{
    if items.len() > 0 {
        let all = groups(items, n);
        if items.len() <= n {
            assert(all.skip(1) =~= Seq::empty());
            assert(flatten(all.skip(1)) =~= Seq::empty());
            assert(items + Seq::<JsonView>::empty() =~= items);
        } else {
            let rest = items.skip(n as int);
            groups_hold_everything(rest, n);
            assert(all.skip(1) =~= groups(rest, n));
            assert(items.take(n as int) + rest =~= items);
            assert forall|i: int| 0 <= i < all.len() implies 0 < (#[trigger] all[i]).len()
                <= n by {
                if i > 0 {
                    assert(all[i] == groups(rest, n)[i - 1]);
                }
            }
        }
    } else {
        assert(flatten(groups(items, n)) =~= items);
    }
}

/// Unpacking the batches that values were packed into gives the values back, in
/// order: every envelope unpacks to its group, and the groups are the values.
pub proof fn unpacking_undoes_packing(
    workflow: Seq<char>,
    items: Seq<JsonView>,
    n: nat,
    envelopes: Seq<EnvelopeView>,
)
    requires
        n > 0,
        are_batches(workflow, items, n, envelopes),
    ensures
        forall|i: int|
            0 <= i < envelopes.len() ==> unpacked(#[trigger] envelopes[i]) == Ok::<
                Seq<JsonView>,
                Seq<char>,
            >(groups(items, n)[i]),
        flatten(groups(items, n)) == items,
{
    groups_hold_everything(items, n);
    assert forall|i: int| 0 <= i < envelopes.len() implies unpacked(#[trigger] envelopes[i])
        == Ok::<Seq<JsonView>, Seq<char>>(groups(items, n)[i]) by {
        let group = groups(items, n)[i];
        assert(is_batch(workflow, group, envelopes[i]));
        let id = choose|id: Seq<char>|
            id.len() == 36 && envelopes[i] == #[trigger] batch_view(workflow, id, group);
        assoc_after_insert(
            seq![("batch_id"@, JsonView::Text(id))],
            "items"@,
            JsonView::Array(group),
            "items"@,
        );
    }
}

/// All groups but the last are full.
pub proof fn groups_are_full(items: Seq<JsonView>, n: nat)
    requires
        n > 0,
    ensures
        forall|i: int|
            0 <= i < groups(items, n).len() - 1 ==> (#[trigger] groups(items, n)[i]).len() == n,
    decreases items.len(),
{
    if items.len() > n {
        let all = groups(items, n);
        let rest = items.skip(n as int);
        groups_are_full(rest, n);
        assert forall|i: int| 0 <= i < all.len() - 1 implies (#[trigger] all[i]).len() == n by {
            if i > 0 {
                assert(all[i] == groups(rest, n)[i - 1]);
            }
        }
    }
}

/// The envelope of a batch is a service message of the workflow that holds the identifier
/// and the values.
pub proof fn batch_holds_its_values(workflow: Seq<char>, id: Seq<char>, items: Seq<JsonView>)
    ensures
        ({
            let e = batch_view(workflow, id, items);
            &&& e.message_type == "service"@
            &&& e.workflow == workflow
            &&& e.cmd == "batch"@
            &&& e.message_id is None
            &&& e.resource is None
            &&& e.info.get("batch_id"@) == Some(JsonView::Text(id))
            &&& e.info.get("items"@) == Some(JsonView::Array(items))
        }),
{
    reveal_strlit("batch_id");
    reveal_strlit("items");
    assert("batch_id"@.len() != "items"@.len());
    let m = seq![("batch_id"@, JsonView::Text(id))];
    assoc_after_insert(m, "items"@, JsonView::Array(items), "batch_id"@);
    assoc_after_insert(m, "items"@, JsonView::Array(items), "items"@);
}

/// An envelope gives values exactly where it is a batch with a list of items that is not
/// empty, whatever its type and its identifier; they are the items of the list. An error
/// says which of the three is wrong, in this order.
pub proof fn only_batches_unpack(e: EnvelopeView, items: Seq<JsonView>)
    ensures
        unpacked(e) == Ok::<Seq<JsonView>, Seq<char>>(items) <==> e.cmd == "batch"@ && items.len()
            > 0 && e.info.get("items"@) == Some(JsonView::Array(items)),
        e.cmd != "batch"@ ==> unpacked(e) == Err::<Seq<JsonView>, Seq<char>>(
            "not a batch message"@,
        ),
        e.cmd == "batch"@ && !(e.info.get("items"@) matches Some(JsonView::Array(_))) ==> unpacked(
            e,
        ) == Err::<Seq<JsonView>, Seq<char>>("batch items is missing"@),
        e.cmd == "batch"@ && e.info.get("items"@) == Some(JsonView::Array(Seq::empty()))
            ==> unpacked(e) == Err::<Seq<JsonView>, Seq<char>>("batch items is empty"@),
{
}

} // verus!
