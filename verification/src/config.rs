//! The configuration store: a flat mapping from dotted paths to values,
//! loaded once by merging a file-based and an environment-based source, and
//! read through typed, prefix-addressed extraction.
//!
//! A later entry for a path shadows an earlier one, so the environment source
//! (appended second by [`ConfigTree::load`]) overrides the file source.

use vstd::prelude::*;

use crate::errors::BootError;
use crate::errors::ErrView;
use crate::strutil::is_prefix_of;
use crate::strutil::join_dotted;
use crate::strutil::spec_join_dotted;
use crate::strutil::str_eq;
use crate::strutil::str_starts_with;

verus! {

/// One structured configuration value.
#[derive(PartialEq, Eq, Debug)]
pub enum ConfigValue {
    Text(String),
    Number(i64),
    Truth(bool),
}

/// The mathematical value of a [`ConfigValue`].
pub enum ValueView {
    Text(Seq<char>),
    Number(i64),
    Truth(bool),
}

impl View for ConfigValue {
    type V = ValueView;

    open spec fn view(&self) -> ValueView {
        match self {
            ConfigValue::Text(s) => ValueView::Text(s@),
            ConfigValue::Number(n) => ValueView::Number(*n),
            ConfigValue::Truth(b) => ValueView::Truth(*b),
        }
    }
}

/// The kind a configuration value can have; a shape field demands one.
#[derive(Clone, Copy, PartialEq, Eq, Structural, Debug)]
pub enum ValueKind {
    Text,
    Number,
    Truth,
}

/// The kind of a value.
pub open spec fn spec_kind_of(v: ValueView) -> ValueKind {
    match v {
        ValueView::Text(_) => ValueKind::Text,
        ValueView::Number(_) => ValueKind::Number,
        ValueView::Truth(_) => ValueKind::Truth,
    }
}

/// The kind of a value.
pub fn kind_of(v: &ConfigValue) -> (k: ValueKind)
    ensures
        k == spec_kind_of(v@),
{
    match v {
        ConfigValue::Text(_) => ValueKind::Text,
        ConfigValue::Number(_) => ValueKind::Number,
        ConfigValue::Truth(_) => ValueKind::Truth,
    }
}

/// An exact copy of a value.
pub fn clone_value(v: &ConfigValue) -> (r: ConfigValue)
    ensures
        r@ == v@,
{
    match v {
        ConfigValue::Text(s) => ConfigValue::Text(s.clone()),
        ConfigValue::Number(n) => ConfigValue::Number(*n),
        ConfigValue::Truth(b) => ConfigValue::Truth(*b),
    }
}

/// One field of a target shape: its name and the kind it demands.
#[derive(Debug)]
pub struct FieldShape {
    pub name: String,
    pub kind: ValueKind,
}

/// The mathematical value of a [`FieldShape`].
pub struct FieldShapeView {
    pub name: Seq<char>,
    pub kind: ValueKind,
}

impl View for FieldShape {
    type V = FieldShapeView;

    open spec fn view(&self) -> FieldShapeView {
        FieldShapeView { name: self.name@, kind: self.kind }
    }
}

/// A target shape: the prefix its declaration carries and its fields in
/// declaration order.
#[derive(Debug)]
pub struct ShapeDef {
    pub prefix: String,
    pub fields: Vec<FieldShape>,
}

/// The mathematical value of a [`ShapeDef`].
pub struct ShapeView {
    pub prefix: Seq<char>,
    pub fields: Seq<FieldShapeView>,
}

impl View for ShapeDef {
    type V = ShapeView;

    open spec fn view(&self) -> ShapeView {
        ShapeView {
            prefix: self.prefix@,
            fields: self.fields@.map(|i: int, f: FieldShape| f@),
        }
    }
}

/// The configuration store. Immutable once loaded; the write operations exist
/// for staging a tree before it is handed to the application.
pub struct ConfigTree {
    entries: Vec<(String, ConfigValue)>,
}

impl View for ConfigTree {
    type V = Seq<(Seq<char>, ValueView)>;

    closed spec fn view(&self) -> Seq<(Seq<char>, ValueView)> {
        self.entries@.map(|i: int, e: (String, ConfigValue)| (e.0@, e.1@))
    }
}

/// The value stored under `key`: the last entry for that path wins.
pub open spec fn spec_lookup(s: Seq<(Seq<char>, ValueView)>, key: Seq<char>) -> Option<ValueView>
    decreases s.len(),
{
    if s.len() == 0 {
        None
    } else if s.last().0 == key {
        Some(s.last().1)
    } else {
        spec_lookup(s.drop_last(), key)
    }
}

/// `key` lies under `prefix`: it starts with `prefix.`, or the prefix is
/// empty and every key qualifies.
pub open spec fn key_under(key: Seq<char>, prefix: Seq<char>) -> bool {
    if prefix.len() == 0 {
        true
    } else {
        is_prefix_of(prefix + seq!['.'], key)
    }
}

/// Some entry lies under `prefix`.
pub open spec fn spec_has_subtree(s: Seq<(Seq<char>, ValueView)>, prefix: Seq<char>) -> bool {
    exists|i: int| 0 <= i < s.len() && key_under((#[trigger] s[i]).0, prefix)
}

/// Extraction of the fields of a shape, from field `i` on: each field's value
/// is looked up under its dotted path and must carry the demanded kind. A
/// missing or wrongly shaped field is reported against the requesting prefix,
/// naming the field.
pub open spec fn spec_extract_from(
    s: Seq<(Seq<char>, ValueView)>,
    prefix: Seq<char>,
    fields: Seq<FieldShapeView>,
    i: int,
) -> Result<Seq<ValueView>, ErrView>
    decreases fields.len() - i,
{
    if i < 0 || i >= fields.len() {
        Ok(Seq::empty())
    } else {
        match spec_lookup(s, spec_join_dotted(prefix, fields[i].name)) {
            Option::None => Err(
                ErrView::ConfigTypeMismatch { prefix: prefix, detail: fields[i].name },
            ),
            Option::Some(v) => {
                if spec_kind_of(v) != fields[i].kind {
                    Err(ErrView::ConfigTypeMismatch { prefix: prefix, detail: fields[i].name })
                } else {
                    match spec_extract_from(s, prefix, fields, i + 1) {
                        Ok(rest) => Ok(seq![v] + rest),
                        Err(e) => Err(e),
                    }
                }
            },
        }
    }
}

/// The whole extraction: an absent subtree is `ConfigMissing`; otherwise the
/// fields are extracted in declaration order.
pub open spec fn spec_extract(
    s: Seq<(Seq<char>, ValueView)>,
    prefix: Seq<char>,
    fields: Seq<FieldShapeView>,
) -> Result<Seq<ValueView>, ErrView> {
    if !spec_has_subtree(s, prefix) {
        Err(ErrView::ConfigMissing { prefix: prefix })
    } else {
        spec_extract_from(s, prefix, fields, 0)
    }
}

/// The entries that writing `values` for `fields` under `prefix` appends.
pub open spec fn spec_written(
    prefix: Seq<char>,
    fields: Seq<FieldShapeView>,
    values: Seq<ValueView>,
) -> Seq<(Seq<char>, ValueView)> {
    Seq::new(fields.len(), |i: int| (spec_join_dotted(prefix, fields[i].name), values[i]))
}

impl ConfigTree {
    /// A tree with no entries.
    pub fn new() -> (r: ConfigTree)
        ensures
            r@ == Seq::<(Seq<char>, ValueView)>::empty(),
    {
        let r = ConfigTree { entries: Vec::new() };
        proof {
            assert(r@ =~= Seq::<(Seq<char>, ValueView)>::empty());
        }
        r
    }

    /// Merges the file-based and the environment-based source, once. The
    /// environment entries come second, so they shadow file entries for the
    /// same path (see [`lemma_lookup_append`]).
    pub fn load(
        file_entries: Vec<(String, ConfigValue)>,
        env_entries: Vec<(String, ConfigValue)>,
    ) -> (r: ConfigTree)
        ensures
            r@ == file_entries@.map(|i: int, e: (String, ConfigValue)| (e.0@, e.1@))
                + env_entries@.map(|i: int, e: (String, ConfigValue)| (e.0@, e.1@)),
    {
        let ghost file0 = file_entries@;
        let ghost env0 = env_entries@;
        let mut entries = file_entries;
        let mut env_entries = env_entries;
        entries.append(&mut env_entries);
        let r = ConfigTree { entries };
        proof {
            assert(r@ =~= file0.map(|i: int, e: (String, ConfigValue)| (e.0@, e.1@)) + env0.map(
                |i: int, e: (String, ConfigValue)| (e.0@, e.1@),
            ));
        }
        r
    }

    /// Appends one entry; a later entry for the same path shadows the earlier.
    pub fn set(&mut self, key: String, value: ConfigValue)
        ensures
            final(self)@ == old(self)@.push((key@, value@)),
    {
        let ghost before = self@;
        let ghost k = key@;
        let ghost v = value@;
        self.entries.push((key, value));
        proof {
            assert(final(self)@ =~= before.push((k, v)));
        }
    }

    /// The value stored under `key`, if any: the last entry wins.
    pub fn lookup(&self, key: &str) -> (r: Option<&ConfigValue>)
        ensures
            match r {
                Option::Some(v) => spec_lookup(self@, key@) == Some(v@),
                Option::None => spec_lookup(self@, key@) is None,
            },
    {
        let mut i: usize = self.entries.len();
        proof {
            assert(self@.subrange(0, i as int) =~= self@);
        }
        while i > 0
            invariant
                i <= self.entries.len(),
                spec_lookup(self@, key@) == spec_lookup(self@.subrange(0, i as int), key@),
            decreases i,
        {
            i -= 1;
            let e = &self.entries[i];
            proof {
                assert(self@.subrange(0, i + 1).last() == self@[i as int]);
                assert(self@.subrange(0, i + 1).drop_last() =~= self@.subrange(0, i as int));
            }
            if str_eq(e.0.as_str(), key) {
                return Some(&e.1);
            }
        }
        proof {
            assert(self@.subrange(0, 0) =~= Seq::<(Seq<char>, ValueView)>::empty());
        }
        None
    }

    /// Some entry lies under `prefix`.
    pub fn has_subtree(&self, prefix: &str) -> (r: bool)
        ensures
            r == spec_has_subtree(self@, prefix@),
    {
        if prefix.unicode_len() == 0 {
            if self.entries.len() > 0 {
                assert(key_under(self@[0].0, prefix@));
                return true;
            }
            return false;
        }
        let marker = join_dotted(prefix, "");
        proof {
            reveal_strlit("");
            assert(marker@ =~= prefix@ + seq!['.']);
        }
        let mut i: usize = 0;
        while i < self.entries.len()
            invariant
                i <= self.entries.len(),
                marker@ == prefix@ + seq!['.'],
                prefix@.len() > 0,
                forall|j: int| 0 <= j < i ==> !key_under((#[trigger] self@[j]).0, prefix@),
            decreases self.entries.len() - i,
        {
            if str_starts_with(self.entries[i].0.as_str(), marker.as_str()) {
                assert(key_under(self@[i as int].0, prefix@));
                return true;
            }
            i += 1;
        }
        false
    }

    /// Typed extraction: deserializes the subtree rooted at `prefix` into the
    /// shape's fields, in declaration order. An absent subtree yields
    /// `ConfigMissing` naming the prefix; a missing field or one of the wrong
    /// kind yields `ConfigTypeMismatch` naming the prefix and the field.
    pub fn extract(&self, prefix: &str, shape: &ShapeDef) -> (r: Result<Vec<ConfigValue>, BootError>)
        ensures
            match r {
                Ok(values) => spec_extract(self@, prefix@, shape@.fields) == Ok::<
                    Seq<ValueView>,
                    ErrView,
                >(values@.map(|i: int, v: ConfigValue| v@)),
                Err(e) => spec_extract(self@, prefix@, shape@.fields) == Err::<
                    Seq<ValueView>,
                    ErrView,
                >(e@),
            },
    {
        if !self.has_subtree(prefix) {
            return Err(BootError::ConfigMissing { prefix: prefix.to_owned() });
        }
        let ghost fs = shape@.fields;
        let mut values: Vec<ConfigValue> = Vec::new();
        let mut i: usize = 0;
        while i < shape.fields.len()
            invariant
                i <= shape.fields.len(),
                fs == shape@.fields,
                fs.len() == shape.fields.len(),
                values@.len() == i as int,
                spec_has_subtree(self@, prefix@),
                spec_extract_from(self@, prefix@, fs, 0) == match spec_extract_from(
                    self@,
                    prefix@,
                    fs,
                    i as int,
                ) {
                    Ok(rest) => Ok::<Seq<ValueView>, ErrView>(
                        values@.map(|j: int, v: ConfigValue| v@) + rest,
                    ),
                    Err(e) => Err(e),
                },
            decreases shape.fields.len() - i,
        {
            let field = &shape.fields[i];
            let key = join_dotted(prefix, field.name.as_str());
            let ghost acc_before = values@.map(|j: int, v: ConfigValue| v@);
            match self.lookup(key.as_str()) {
                Option::None => {
                    return Err(
                        BootError::ConfigTypeMismatch {
                            prefix: prefix.to_owned(),
                            detail: field.name.clone(),
                        },
                    );
                },
                Option::Some(v) => {
                    let k = kind_of(v);
                    if k != field.kind {
                        return Err(
                            BootError::ConfigTypeMismatch {
                                prefix: prefix.to_owned(),
                                detail: field.name.clone(),
                            },
                        );
                    }
                    let cv = clone_value(v);
                    let ghost vv = v@;
                    values.push(cv);
                    proof {
                        assert(values@.map(|j: int, v: ConfigValue| v@) =~= acc_before + seq![vv]);
                        assert(acc_before + (seq![vv] + spec_result_rest(
                            spec_extract_from(self@, prefix@, fs, i + 1),
                        )) =~= (acc_before + seq![vv]) + spec_result_rest(
                            spec_extract_from(self@, prefix@, fs, i + 1),
                        ));
                    }
                },
            }
            i += 1;
        }
        assert(spec_extract_from(self@, prefix@, fs, i as int) == Ok::<
            Seq<ValueView>,
            ErrView,
        >(Seq::empty()));
        proof {
            assert(values@.map(|j: int, v: ConfigValue| v@) + Seq::<ValueView>::empty()
                =~= values@.map(|j: int, v: ConfigValue| v@));
        }
        Ok(values)
    }

    /// Writes `values` for the shape's fields under `prefix`, one entry per
    /// field, in declaration order.
    pub fn write_shape(&mut self, prefix: &str, shape: &ShapeDef, values: &Vec<ConfigValue>)
        requires
            old(self)@.len() + shape@.fields.len() <= usize::MAX,
            values@.len() == shape@.fields.len(),
        ensures
            final(self)@ == old(self)@ + spec_written(
                prefix@,
                shape@.fields,
                values@.map(|i: int, v: ConfigValue| v@),
            ),
    {
        let ghost before = self@;
        let ghost fs = shape@.fields;
        let ghost vs = values@.map(|i: int, v: ConfigValue| v@);
        let mut i: usize = 0;
        while i < shape.fields.len()
            invariant
                i <= shape.fields.len(),
                fs == shape@.fields,
                vs == values@.map(|i: int, v: ConfigValue| v@),
                fs.len() == shape.fields.len(),
                values@.len() == fs.len(),
                before.len() + fs.len() <= usize::MAX,
                self@ == before + spec_written(prefix@, fs, vs).subrange(0, i as int),
            decreases shape.fields.len() - i,
        {
            let key = join_dotted(prefix, shape.fields[i].name.as_str());
            let value = clone_value(&values[i]);
            let ghost sofar = self@;
            self.set(key, value);
            proof {
                assert(self@ =~= before + spec_written(prefix@, fs, vs).subrange(0, i + 1));
            }
            i += 1;
        }
        proof {
            assert(spec_written(prefix@, fs, vs).subrange(0, fs.len() as int) =~= spec_written(
                prefix@,
                fs,
                vs,
            ));
        }
    }
}

/// The `Ok` payload of an extraction result, empty on error; a helper for
/// stating loop invariants.
pub open spec fn spec_result_rest(r: Result<Seq<ValueView>, ErrView>) -> Seq<ValueView> {
    match r {
        Ok(rest) => rest,
        Err(_) => Seq::empty(),
    }
}

/// Under one prefix, distinct field names give distinct dotted paths.
pub proof fn lemma_join_dotted_injective(p: Seq<char>, a: Seq<char>, b: Seq<char>)
    requires
        spec_join_dotted(p, a) == spec_join_dotted(p, b),
    ensures
        a == b,
{
    if p.len() == 0 {
    } else {
        let ja = p + seq!['.'] + a;
        let jb = p + seq!['.'] + b;
        assert(ja.len() == jb.len());
        assert forall|i: int| 0 <= i < a.len() implies a[i] == b[i] by {
            assert(ja[p.len() + 1 + i] == a[i]);
            assert(jb[p.len() + 1 + i] == b[i]);
        }
        assert(a =~= b);
    }
}

/// After writing a shape's values under a prefix, each field's dotted path
/// reads back exactly the value written for it.
pub proof fn lemma_lookup_written(
    tree: Seq<(Seq<char>, ValueView)>,
    prefix: Seq<char>,
    fields: Seq<FieldShapeView>,
    values: Seq<ValueView>,
    i: int,
)
    requires
        fields.len() == values.len(),
        forall|j: int, k: int|
            0 <= j < fields.len() && 0 <= k < fields.len() && j != k ==> (#[trigger] fields[j].name)
                != (#[trigger] fields[k].name),
        0 <= i < fields.len(),
    ensures
        spec_lookup(
            tree + spec_written(prefix, fields, values),
            spec_join_dotted(prefix, fields[i].name),
        ) == Some(values[i]),
    decreases fields.len(),
{
    let w = spec_written(prefix, fields, values);
    let s = tree + w;
    let n = fields.len() as int;
    let key = spec_join_dotted(prefix, fields[i].name);
    assert(s.last() == w[n - 1]);
    if i == n - 1 {
        assert(s.last().0 == key);
    } else {
        if s.last().0 == key {
            lemma_join_dotted_injective(prefix, fields[n - 1].name, fields[i].name);
            assert(false);
        }
        assert(s.drop_last() =~= tree + spec_written(
            prefix,
            fields.drop_last(),
            values.drop_last(),
        ));
        lemma_lookup_written(tree, prefix, fields.drop_last(), values.drop_last(), i);
        assert(fields.drop_last()[i] == fields[i]);
    }
}

/// Extraction from field `i` on, after writing the whole shape, returns the
/// written values from `i` on.
proof fn lemma_extract_from_written(
    tree: Seq<(Seq<char>, ValueView)>,
    prefix: Seq<char>,
    fields: Seq<FieldShapeView>,
    values: Seq<ValueView>,
    i: int,
)
    requires
        fields.len() == values.len(),
        forall|j: int, k: int|
            0 <= j < fields.len() && 0 <= k < fields.len() && j != k ==> (#[trigger] fields[j].name)
                != (#[trigger] fields[k].name),
        forall|j: int| 0 <= j < fields.len() ==> spec_kind_of(#[trigger] values[j]) == fields[j].kind,
        0 <= i <= fields.len(),
    ensures
        spec_extract_from(tree + spec_written(prefix, fields, values), prefix, fields, i) == Ok::<
            Seq<ValueView>,
            ErrView,
        >(values.subrange(i, values.len() as int)),
    decreases fields.len() - i,
{
    let s = tree + spec_written(prefix, fields, values);
    let n = fields.len() as int;
    if i == n {
        assert(values.subrange(n, n) =~= Seq::<ValueView>::empty());
    } else {
        lemma_lookup_written(tree, prefix, fields, values, i);
        lemma_extract_from_written(tree, prefix, fields, values, i + 1);
        assert(seq![values[i]] + values.subrange(i + 1, n) =~= values.subrange(i, n));
    }
}

/// Round trip: writing the values of a shape under a prefix and then
/// extracting that shape at the same prefix reconstructs exactly the values
/// written, whatever the store held before.
pub proof fn lemma_extract_round_trip(
    tree: Seq<(Seq<char>, ValueView)>,
    prefix: Seq<char>,
    fields: Seq<FieldShapeView>,
    values: Seq<ValueView>,
)
    requires
        fields.len() == values.len(),
        fields.len() > 0,
        forall|j: int, k: int|
            0 <= j < fields.len() && 0 <= k < fields.len() && j != k ==> (#[trigger] fields[j].name)
                != (#[trigger] fields[k].name),
        forall|j: int| 0 <= j < fields.len() ==> spec_kind_of(#[trigger] values[j]) == fields[j].kind,
    ensures
        spec_extract(tree + spec_written(prefix, fields, values), prefix, fields) == Ok::<
            Seq<ValueView>,
            ErrView,
        >(values),
{
    let s = tree + spec_written(prefix, fields, values);
    let w0 = (spec_join_dotted(prefix, fields[0].name), values[0]);
    assert(s[tree.len() as int] == w0);
    if prefix.len() > 0 {
        assert((prefix + seq!['.'] + fields[0].name).subrange(0, prefix.len() as int + 1) =~= prefix
            + seq!['.']);
        assert(key_under(w0.0, prefix));
    }
    assert(spec_has_subtree(s, prefix));
    lemma_extract_from_written(tree, prefix, fields, values, 0);
    assert(values.subrange(0, values.len() as int) =~= values);
}

/// Looking a path up in a merged store reads the second source first: an
/// entry of `b` for the path shadows every entry of `a`.
pub proof fn lemma_lookup_append(
    a: Seq<(Seq<char>, ValueView)>,
    b: Seq<(Seq<char>, ValueView)>,
    key: Seq<char>,
)
    ensures
        spec_lookup(a + b, key) == match spec_lookup(b, key) {
            Option::Some(v) => Some(v),
            Option::None => spec_lookup(a, key),
        },
    decreases b.len(),
{
    if b.len() == 0 {
        assert(a + b =~= a);
    } else {
        assert((a + b).last() == b.last());
        assert((a + b).drop_last() =~= a + b.drop_last());
        lemma_lookup_append(a, b.drop_last(), key);
    }
}

} // verus!
