use vstd::prelude::*;

use crate::entry::{
    all_fields, canonical_name, field_value, MetaValue, MetaValueView, UploadFileInfo,
    UploadFileInfoFiled, UploadFileInfoView,
};
use crate::params::FileUploadProcessParams;

verus! {

/// A metadata request body: a JSON object as its keys and values in order.
pub type BodyView = Seq<(Seq<char>, MetaValueView)>;

pub open spec fn body_view(b: Seq<(String, MetaValue)>) -> BodyView {
    b.map_values(|p: (String, MetaValue)| (p.0@, p.1@))
}

/// Sets key `k` of an object to `v`: an existing key keeps its place and takes
/// the new value, a new key goes last.
pub open spec fn with_field(body: BodyView, k: Seq<char>, v: MetaValueView) -> BodyView
    decreases body.len(),
{
    if body.len() == 0 {
        seq![(k, v)]
    } else if body[0].0 == k {
        body.update(0, (k, v))
    } else {
        seq![body[0]] + with_field(body.drop_first(), k, v)
    }
}

/// The first destination key that `r` gives to `f`.
pub open spec fn rename_of(r: Seq<(UploadFileInfoFiled, Seq<char>)>, f: UploadFileInfoFiled) -> Option<
    Seq<char>,
>
    decreases r.len(),
{
    if r.len() == 0 {
        None
    } else if r[0].0 == f {
        Some(r[0].1)
    } else {
        rename_of(r.drop_first(), f)
    }
}

/// The key under which field `f` is sent.
pub open spec fn wire_name(renames: Option<Seq<(UploadFileInfoFiled, Seq<char>)>>, f: UploadFileInfoFiled) -> Seq<char> {
    match renames {
        Some(r) => match rename_of(r, f) {
            Some(k) => k,
            None => canonical_name(f),
        },
        None => canonical_name(f),
    }
}

/// The body holding the first `n` semantic fields.
pub open spec fn fields_body(
    e: UploadFileInfoView,
    renames: Option<Seq<(UploadFileInfoFiled, Seq<char>)>>,
    n: nat,
) -> BodyView
    decreases n,
{
    if n == 0 {
        seq![]
    } else {
        let f = all_fields()[n - 1];
        with_field(fields_body(e, renames, (n - 1) as nat), wire_name(renames, f), field_value(e, f))
    }
}

/// `body` with the fixed fields merged in, each overriding what stands under
/// its key.
pub open spec fn with_fixed(body: BodyView, fixed: Seq<(Seq<char>, serde_json::Value)>) -> BodyView
    decreases fixed.len(),
{
    if fixed.len() == 0 {
        body
    } else {
        with_field(
            with_fixed(body, fixed.drop_last()),
            fixed.last().0,
            MetaValueView::Json(fixed.last().1),
        )
    }
}

/// The metadata request body of entry `e` under configuration `c`.
pub open spec fn request_body(e: UploadFileInfoView, c: FileUploadProcessParams) -> BodyView {
    with_fixed(fields_body(e, c.renames(), 4), c.fixed_fields())
}

/// The body depends on the entry and on the configuration's renames and fixed
/// fields alone: the same entry and configuration give the same body, call
/// after call.
pub proof fn lemma_body_deterministic(
    e1: UploadFileInfoView,
    e2: UploadFileInfoView,
    c1: FileUploadProcessParams,
    c2: FileUploadProcessParams,
)
    requires
        e1 == e2,
        c1.renames() == c2.renames(),
        c1.fixed_fields() == c2.fixed_fields(),
    ensures
        request_body(e1, c1) == request_body(e2, c2),
{
}

/// The value that `body` holds under key `k`: that of its first field with
/// that key.
pub open spec fn value_at(body: BodyView, k: Seq<char>) -> Option<MetaValueView>
    decreases body.len(),
{
    if body.len() == 0 {
        None
    } else if body[0].0 == k {
        Some(body[0].1)
    } else {
        value_at(body.drop_first(), k)
    }
}

/// The value of the last fixed field with key `k`.
pub open spec fn fixed_value(fixed: Seq<(Seq<char>, serde_json::Value)>, k: Seq<char>) -> Option<serde_json::Value>
    decreases fixed.len(),
{
    if fixed.len() == 0 {
        None
    } else if fixed.last().0 == k {
        Some(fixed.last().1)
    } else {
        fixed_value(fixed.drop_last(), k)
    }
}

proof fn lemma_value_at_with_field(body: BodyView, k: Seq<char>, v: MetaValueView, q: Seq<char>)
    ensures
        value_at(with_field(body, k, v), q) == if q == k {
            Some(v)
        } else {
            value_at(body, q)
        },
    decreases body.len(),
{
    if body.len() == 0 {
        assert(seq![(k, v)].drop_first() =~= Seq::<(Seq<char>, MetaValueView)>::empty());
        assert(with_field(body, k, v) == seq![(k, v)]);
        assert(value_at(Seq::<(Seq<char>, MetaValueView)>::empty(), q) is None);
    } else if body[0].0 != k {
        let w = seq![body[0]] + with_field(body.drop_first(), k, v);
        lemma_value_at_with_field(body.drop_first(), k, v, q);
        assert(w[0] == body[0]);
        assert(w.drop_first() =~= with_field(body.drop_first(), k, v));
        assert(with_field(body, k, v) == w);
    } else {
        let w = body.update(0, (k, v));
        assert(w[0] == (k, v));
        assert(w.drop_first() =~= body.drop_first());
        assert(with_field(body, k, v) == w);
    }
}

/// Fixed fields win: under a key that some fixed field has, the body holds
/// the value of the last such field; under any other key, what the semantic
/// fields put there.
pub proof fn lemma_fixed_fields_win(body: BodyView, fixed: Seq<(Seq<char>, serde_json::Value)>, k: Seq<char>)
    ensures
        value_at(with_fixed(body, fixed), k) == match fixed_value(fixed, k) {
            Some(j) => Some(MetaValueView::Json(j)),
            None => value_at(body, k),
        },
    decreases fixed.len(),
{
    if fixed.len() > 0 {
        lemma_fixed_fields_win(body, fixed.drop_last(), k);
        lemma_value_at_with_field(with_fixed(body, fixed.drop_last()), fixed.last().0, MetaValueView::Json(fixed.last().1), k);
    }
}

proof fn lemma_with_field_skip(body: BodyView, k: Seq<char>, v: MetaValueView, i: int)
    requires
        0 <= i <= body.len(),
        forall|j: int| 0 <= j < i ==> body[j].0 != k,
    ensures
        with_field(body, k, v) == body.subrange(0, i) + with_field(body.subrange(i, body.len() as int), k, v),
    decreases i,
{
    if i == 0 {
        assert(body.subrange(0, 0) + with_field(body.subrange(0, body.len() as int), k, v) =~= with_field(body, k, v)) by {
            assert(body.subrange(0, body.len() as int) =~= body);
        }
    } else {
        lemma_with_field_skip(body, k, v, i - 1);
        let rest = body.subrange(i - 1, body.len() as int);
        assert(rest[0] == body[i - 1]);
        assert(rest.drop_first() =~= body.subrange(i, body.len() as int));
        assert(body.subrange(0, i - 1) + (seq![body[i - 1]] + with_field(rest.drop_first(), k, v))
            =~= body.subrange(0, i) + with_field(body.subrange(i, body.len() as int), k, v));
    }
}

/// Sets key `k` of `body` to `v`.
pub fn insert_field(body: &mut Vec<(String, MetaValue)>, k: String, v: MetaValue)
    ensures
        body_view(final(body)@) == with_field(body_view(old(body)@), k@, v@),
{
    let ghost b0 = body_view(body@);
    let mut i: usize = 0;
    while i < body.len()
        invariant
            i <= body.len(),
            body@ == old(body)@,
            b0 == body_view(body@),
            forall|j: int| 0 <= j < i ==> b0[j].0 != k@,
        decreases body.len() - i,
    {
        if body[i].0 == k {
            proof {
                lemma_with_field_skip(b0, k@, v@, i as int);
                let rest = b0.subrange(i as int, b0.len() as int);
                assert(rest[0].0 == k@);
            }
            let ghost kv = k@;
            let ghost vv = v@;
            body.set(i, (k, v));
            proof {
                let rest = b0.subrange(i as int, b0.len() as int);
                assert(body_view(body@) =~= b0.subrange(0, i as int) + rest.update(0, (kv, vv)));
            }
            return;
        }
        i += 1;
    }
    proof {
        lemma_with_field_skip(b0, k@, v@, i as int);
        assert(b0.subrange(0, i as int) =~= b0);
        assert(b0.subrange(i as int, b0.len() as int) =~= Seq::<(Seq<char>, MetaValueView)>::empty());
    }
    let ghost kv = k@;
    let ghost vv = v@;
    body.push((k, v));
    assert(body_view(body@) =~= b0 + seq![(kv, vv)]);
}

/// The key under which `config` sends field `f`.
pub fn wire_key(config: &FileUploadProcessParams, f: UploadFileInfoFiled) -> (r: String)
    ensures
        r@ == wire_name(config.renames(), f),
{
    if let Some(renames) = &config.upload_metadata_rename_filed {
        let ghost rv = crate::params::renames_view(renames@);
        let mut i: usize = 0;
        assert(rv.subrange(0, rv.len() as int) =~= rv);
        while i < renames.len()
            invariant
                i <= renames.len(),
                rv == crate::params::renames_view(renames@),
                config.renames() == Some(rv),
                rename_of(rv, f) == rename_of(rv.subrange(i as int, rv.len() as int), f),
            decreases renames.len() - i,
        {
            let ghost rest = rv.subrange(i as int, rv.len() as int);
            assert(rest.drop_first() =~= rv.subrange(i + 1, rv.len() as int));
            if renames[i].0 == f {
                assert(rest[0] == rv[i as int]);
                assert(rv[i as int] == (renames@[i as int].0, renames@[i as int].1@));
                assert(rename_of(rest, f) == Some(rv[i as int].1));
                let r = renames[i].1.clone();
                assert(r@ == rv[i as int].1);
                return r;
            }
            i += 1;
        }
        assert(rv.subrange(i as int, rv.len() as int).len() == 0);
    }
    f.to_str_filed().to_string()
}

impl UploadFileInfo {
    /// The metadata request body of this entry: each semantic field under its
    /// wire key, then the fixed fields, which win on a shared key.
    pub fn to_body(self, config: &FileUploadProcessParams) -> (r: Vec<(String, MetaValue)>)
        ensures
            body_view(r@) == request_body(self@, *config),
    {
        let mut value: Vec<(String, MetaValue)> = Vec::new();
        let fields = UploadFileInfoFiled::get_all();
        let mut i: usize = 0;
        assert(body_view(value@) =~= fields_body(self@, config.renames(), 0));
        while i < fields.len()
            invariant
                fields@ == all_fields(),
                i <= fields.len(),
                body_view(value@) == fields_body(self@, config.renames(), i as nat),
            decreases fields.len() - i,
        {
            let f = fields[i];
            let key = wire_key(config, f);
            insert_field(&mut value, key, self.get_value_by_map(f));
            i += 1;
        }
        if let Some(fixed) = &config.upload_fixed_metadata {
            let ghost fv = crate::params::fixed_view(fixed@);
            let ghost base = fields_body(self@, config.renames(), 4);
            let mut j: usize = 0;
            assert(fv.subrange(0, 0) =~= Seq::<(Seq<char>, serde_json::Value)>::empty());
            while j < fixed.len()
                invariant
                    j <= fixed.len(),
                    fv == crate::params::fixed_view(fixed@),
                    body_view(value@) == with_fixed(base, fv.subrange(0, j as int)),
                decreases fixed.len() - j,
            {
                let key = fixed[j].0.clone();
                let v = fixed[j].1.clone();
                insert_field(&mut value, key, MetaValue::Json(v));
                assert(fv.subrange(0, j + 1).drop_last() =~= fv.subrange(0, j as int));
                j += 1;
            }
            assert(fv.subrange(0, fixed.len() as int) =~= fv);
        }
        value
    }
}

} // verus!
