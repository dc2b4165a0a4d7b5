use vstd::prelude::*;

use crate::de::{dec, dec_entries, dec_fields, dec_list, dec_tuple, positional, DecodeErrorModel};
use crate::keys::{decimal, lemma_decimal_injective};
use crate::native::{NativeModel, ShapeModel};
use crate::ser::{enc, enc_all, enc_entries, enc_fields, enc_positional, encodable};
use crate::value::{key_seq, lemma_first_index, lookup, JsModel};

verus! {

/// The names in `keys` are pairwise distinct.
pub open spec fn distinct_keys(keys: Seq<Seq<char>>) -> bool {
    forall|i: int, j: int| 0 <= i < keys.len() && 0 <= j < keys.len() && i != j ==> keys[i] != keys[j]
}

/// A shape that decoding can follow without ambiguity: record fields and enum
/// variants have distinct names, and an optional value does not directly hold
/// another optional value (both would be `null` when absent).
pub open spec fn shape_ok(s: ShapeModel) -> bool
    decreases s,
{
    match s {
        ShapeModel::Optional(inner) => !(*inner is Optional) && shape_ok(*inner),
        ShapeModel::List(e) => shape_ok(*e),
        ShapeModel::Tuple(shapes) => forall|i: int| 0 <= i < shapes.len() ==> shape_ok(#[trigger] shapes[i]),
        ShapeModel::Entries(k, w) => shape_ok(*k) && shape_ok(*w),
        ShapeModel::Record(fields) => distinct_keys(key_seq(fields)) && forall|i: int|
            0 <= i < fields.len() ==> shape_ok(#[trigger] fields[i].1),
        ShapeModel::Enum(vs) => distinct_keys(key_seq(vs)) && forall|i: int|
            0 <= i < vs.len() ==> (#[trigger] vs[i].1 matches Some(p) ==> shape_ok(p)),
        _ => true,
    }
}

/// Native data `v` is a value of the type that shape `s` describes.
pub open spec fn conforms(v: NativeModel, s: ShapeModel) -> bool
    decreases v,
{
    match v {
        NativeModel::Bool(_) => s is Bool,
        NativeModel::Int(_) => s is Int,
        NativeModel::Str(_) => s is Str,
        NativeModel::Bytes(_) => s is Bytes,
        NativeModel::Char(_) => s is Char,
        NativeModel::Absent => s is Optional,
        NativeModel::Present(x) => s matches ShapeModel::Optional(inner) && conforms(*x, *inner),
        NativeModel::Unit => s is Unit,
        NativeModel::List(xs) => s matches ShapeModel::List(e) && forall|i: int|
            0 <= i < xs.len() ==> conforms(#[trigger] xs[i], *e),
        NativeModel::Stream(_) => false,
        NativeModel::Tuple(xs) => s matches ShapeModel::Tuple(shapes) && xs.len() == shapes.len()
            && forall|i: int| 0 <= i < xs.len() ==> conforms(#[trigger] xs[i], shapes[i]),
        NativeModel::Entries(es) => s matches ShapeModel::Entries(k, w) && forall|i: int|
            0 <= i < es.len() ==> conforms(#[trigger] es[i].0, *k) && conforms(es[i].1, *w),
        NativeModel::Record(fs) => s matches ShapeModel::Record(fields) && fs.len() == fields.len()
            && forall|i: int|
            0 <= i < fs.len() ==> (#[trigger] fs[i]).0 == fields[i].0 && conforms(fs[i].1, fields[i].1),
        NativeModel::UnitVariant(name) => s matches ShapeModel::Enum(vs) && exists|k: int|
            0 <= k < vs.len() && (#[trigger] vs[k]).0 == name && vs[k].1 is None,
        NativeModel::Variant(name, p) => s matches ShapeModel::Enum(vs) && exists|k: int|
            0 <= k < vs.len() && (#[trigger] vs[k]).0 == name && vs[k].1 is Some && conforms(
                *p,
                vs[k].1->Some_0,
            ),
    }
}

proof fn lemma_enc_kind(v: NativeModel, s: ShapeModel)
    requires
        conforms(v, s),
    ensures
        !(enc(v) is Symbol),
        !(s is Optional) ==> !(enc(v) is Null) && !(enc(v) is Undefined),
    decreases v,
{
    if let NativeModel::Present(x) = v {
        if let ShapeModel::Optional(inner) = s {
            lemma_enc_kind(*x, *inner);
        }
    }
}

proof fn lemma_first_of_distinct(keys: Seq<Seq<char>>, n: int)
    requires
        distinct_keys(keys),
        0 <= n < keys.len(),
    ensures
        crate::value::first_index(keys, keys[n]) == n,
{
    assert forall|j: int| 0 <= j < n implies keys[j] != keys[n] by {}
    lemma_first_index(keys, keys[n], n);
}

/// Decoding what native data encodes to, under a shape that the data
/// conforms to, gives the data back; such data is always encodable.
pub proof fn lemma_round_trip(v: NativeModel, s: ShapeModel)
    requires
        shape_ok(s),
        conforms(v, s),
    ensures
        encodable(v),
        dec(s, enc(v)) == Ok::<NativeModel, DecodeErrorModel>(v),
    decreases v, 0int,
{
    lemma_enc_kind(v, s);
    match v {
        NativeModel::Present(x) => {
            if let ShapeModel::Optional(inner) = s {
                lemma_enc_kind(*x, *inner);
                lemma_round_trip(*x, *inner);
            }
        },
        NativeModel::Unit => {},
        NativeModel::List(xs) => {
            if let ShapeModel::List(e) = s {
                lemma_list_round_trip(xs, *e, xs.len() as int);
                assert(enc_all(xs).subrange(0, xs.len() as int) =~= enc_all(xs));
                assert(xs.subrange(0, xs.len() as int) =~= xs);
            }
        },
        NativeModel::Tuple(xs) => {
            if let ShapeModel::Tuple(shapes) = s {
                lemma_tuple_round_trip(xs, shapes, xs.len() as int);
                assert(shapes.subrange(0, xs.len() as int) =~= shapes);
                assert(xs.subrange(0, xs.len() as int) =~= xs);
            }
        },
        NativeModel::Entries(es) => {
            if let ShapeModel::Entries(k, w) = s {
                lemma_entries_conform(es, s);
                lemma_entries_round_trip(es, s, es.len() as int);
                assert(enc_entries(es).subrange(0, es.len() as int) =~= enc_entries(es));
                assert(es.subrange(0, es.len() as int) =~= es);
            }
        },
        NativeModel::Record(fs) => {
            if let ShapeModel::Record(fields) = s {
                lemma_fields_round_trip(fs, fields, fs.len() as int);
                assert(fields.subrange(0, fs.len() as int) =~= fields);
                assert(fs.subrange(0, fs.len() as int) =~= fs);
            }
        },
        NativeModel::UnitVariant(name) => {
            if let ShapeModel::Enum(vs) = s {
                let k = choose|k: int| 0 <= k < vs.len() && (#[trigger] vs[k]).0 == name && vs[k].1 is None;
                assert(key_seq(vs)[k] == name);
                lemma_first_of_distinct(key_seq(vs), k);
            }
        },
        NativeModel::Variant(name, p) => {
            if let ShapeModel::Enum(vs) = s {
                let k = choose|k: int|
                    0 <= k < vs.len() && (#[trigger] vs[k]).0 == name && vs[k].1 is Some
                        && conforms(*p, vs[k].1->Some_0);
                assert(key_seq(vs)[k] == name);
                lemma_first_of_distinct(key_seq(vs), k);
                let ps = vs[k].1->Some_0;
                assert(shape_ok(ps));
                lemma_round_trip(*p, ps);
                let props = seq![(name, enc(*p))];
                assert(props[0].0 == name);
            }
        },
        _ => {},
    }
}

proof fn lemma_list_round_trip(xs: Seq<NativeModel>, e: ShapeModel, n: int)
    requires
        shape_ok(e),
        0 <= n <= xs.len(),
        forall|i: int| 0 <= i < xs.len() ==> conforms(#[trigger] xs[i], e),
    ensures
        forall|i: int| 0 <= i < n ==> encodable(#[trigger] xs[i]),
        dec_list(e, enc_all(xs).subrange(0, n)) == Ok::<Seq<NativeModel>, DecodeErrorModel>(
            xs.subrange(0, n),
        ),
    decreases xs, n,
{
    let items = enc_all(xs).subrange(0, n);
    if n == 0 {
        assert(xs.subrange(0, 0) =~= Seq::<NativeModel>::empty());
    } else {
        lemma_list_round_trip(xs, e, n - 1);
        lemma_round_trip(xs[n - 1], e);
        assert(items.subrange(0, n - 1) =~= enc_all(xs).subrange(0, n - 1));
        assert(items[n - 1] == enc(xs[n - 1]));
        assert(xs.subrange(0, n - 1).push(xs[n - 1]) =~= xs.subrange(0, n));
    }
}

proof fn lemma_tuple_round_trip(xs: Seq<NativeModel>, shapes: Seq<ShapeModel>, n: int)
    requires
        0 <= n <= xs.len(),
        xs.len() == shapes.len(),
        forall|i: int| 0 <= i < shapes.len() ==> shape_ok(#[trigger] shapes[i]),
        forall|i: int| 0 <= i < xs.len() ==> conforms(#[trigger] xs[i], shapes[i]),
    ensures
        forall|i: int| 0 <= i < n ==> encodable(#[trigger] xs[i]),
        dec_tuple(shapes.subrange(0, n), JsModel::Object(enc_positional(xs))) == Ok::<
            Seq<NativeModel>,
            DecodeErrorModel,
        >(xs.subrange(0, n)),
    decreases xs, n,
{
    let v = JsModel::Object(enc_positional(xs));
    let sh = shapes.subrange(0, n);
    if n == 0 {
        assert(xs.subrange(0, 0) =~= Seq::<NativeModel>::empty());
    } else {
        lemma_tuple_round_trip(xs, shapes, n - 1);
        lemma_round_trip(xs[n - 1], shapes[n - 1]);
        assert(sh.subrange(0, n - 1) =~= shapes.subrange(0, n - 1));
        let props = enc_positional(xs);
        let keys = key_seq(props);
        assert forall|j: int| 0 <= j < n - 1 implies keys[j] != decimal((n - 1) as nat) by {
            lemma_decimal_injective(j as nat, (n - 1) as nat);
        }
        assert(keys[n - 1] == decimal((n - 1) as nat));
        lemma_first_index(keys, decimal((n - 1) as nat), n - 1);
        assert(lookup(props, decimal((n - 1) as nat)) == Some(enc(xs[n - 1])));
        assert(positional(v, (n - 1) as nat) == Some(enc(xs[n - 1])));
        assert(xs.subrange(0, n - 1).push(xs[n - 1]) =~= xs.subrange(0, n));
    }
}

proof fn lemma_fields_round_trip(
    fs: Seq<(Seq<char>, NativeModel)>,
    fields: Seq<(Seq<char>, ShapeModel)>,
    n: int,
)
    requires
        0 <= n <= fs.len(),
        fs.len() == fields.len(),
        distinct_keys(key_seq(fields)),
        forall|i: int| 0 <= i < fields.len() ==> shape_ok(#[trigger] fields[i].1),
        forall|i: int|
            0 <= i < fs.len() ==> (#[trigger] fs[i]).0 == fields[i].0 && conforms(fs[i].1, fields[i].1),
    ensures
        forall|i: int| 0 <= i < n ==> encodable(#[trigger] fs[i].1),
        dec_fields(fields.subrange(0, n), enc_fields(fs)) == Ok::<
            Seq<(Seq<char>, NativeModel)>,
            DecodeErrorModel,
        >(fs.subrange(0, n)),
    decreases fs, n,
{
    let sh = fields.subrange(0, n);
    if n == 0 {
        assert(fs.subrange(0, 0) =~= Seq::<(Seq<char>, NativeModel)>::empty());
    } else {
        lemma_fields_round_trip(fs, fields, n - 1);
        lemma_round_trip(fs[n - 1].1, fields[n - 1].1);
        assert(sh.subrange(0, n - 1) =~= fields.subrange(0, n - 1));
        let props = enc_fields(fs);
        assert(key_seq(props) =~= key_seq(fields));
        assert(key_seq(fields)[n - 1] == fields[n - 1].0);
        lemma_first_of_distinct(key_seq(fields), n - 1);
        assert(lookup(props, fields[n - 1].0) == Some(enc(fs[n - 1].1)));
        assert(fs.subrange(0, n - 1).push((fields[n - 1].0, fs[n - 1].1)) =~= fs.subrange(0, n));
    }
}

proof fn lemma_entries_conform(es: Seq<(NativeModel, NativeModel)>, s: ShapeModel)
    requires
        conforms(NativeModel::Entries(es), s),
    ensures
        s matches ShapeModel::Entries(k, w) && forall|i: int|
            0 <= i < es.len() ==> conforms(#[trigger] es[i].0, *k) && conforms(es[i].1, *w),
{
    let v = NativeModel::Entries(es);
    assert(v->Entries_0 == es);
    assert(conforms(v, s));
}

proof fn lemma_entries_round_trip(es: Seq<(NativeModel, NativeModel)>, s: ShapeModel, n: int)
    requires
        0 <= n <= es.len(),
        shape_ok(s),
        s matches ShapeModel::Entries(k, w) && forall|i: int|
            0 <= i < es.len() ==> conforms(#[trigger] es[i].0, *k) && conforms(es[i].1, *w),
    ensures
        forall|i: int| 0 <= i < n ==> encodable(#[trigger] es[i].0) && encodable(es[i].1),
        dec_entries(s, enc_entries(es).subrange(0, n)) == Ok::<
            Seq<(NativeModel, NativeModel)>,
            DecodeErrorModel,
        >(es.subrange(0, n)),
    decreases es, n,
{
    let items = enc_entries(es).subrange(0, n);
    if n == 0 {
        assert(es.subrange(0, 0) =~= Seq::<(NativeModel, NativeModel)>::empty());
    } else {
        if let ShapeModel::Entries(k, w) = s {
            lemma_entries_round_trip(es, s, n - 1);
            lemma_round_trip(es[n - 1].0, *k);
            lemma_round_trip(es[n - 1].1, *w);
            assert(items.subrange(0, n - 1) =~= enc_entries(es).subrange(0, n - 1));
            assert(items[n - 1] == (enc(es[n - 1].0), enc(es[n - 1].1)));
            assert(es.subrange(0, n - 1).push(es[n - 1]) =~= es.subrange(0, n));
        }
    }
}

} // verus!
