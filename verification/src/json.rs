//! JSON values as the library holds them: a tree whose objects keep their keys in order.

use vstd::prelude::*;

use crate::measure::{nearest_bits, Measure};
use crate::text::{chars_of, same};

verus! {

/// A JSON number: an integer, or a quantity with the text it is written as.
#[derive(Debug)]
pub enum Number {
    Unsigned(u64),
    Negative(i64),
    Float(Measure, String),
}

/// A JSON value. The keys of an object are in ascending order, each once.
#[derive(Debug)]
pub enum Json {
    Null,
    Bool(bool),
    Number(Number),
    Text(String),
    List(Vec<Json>),
    Object(Vec<(String, Json)>),
}

/// The model of a JSON number.
pub enum NumberView {
    Unsigned(u64),
    Negative(i64),
    Float(Measure, Seq<char>),
}

/// The model of a JSON value.
#[verifier::ext_equal]
pub enum Tree {
    Null,
    Bool(bool),
    Number(NumberView),
    Text(Seq<char>),
    List(Seq<Tree>),
    Object(Seq<(Seq<char>, Tree)>),
}

impl View for Number {
    type V = NumberView;

    open spec fn view(&self) -> NumberView {
        match self {
            Number::Unsigned(n) => NumberView::Unsigned(*n),
            Number::Negative(n) => NumberView::Negative(*n),
            Number::Float(m, t) => NumberView::Float(*m, t@),
        }
    }
}

impl Json {
    /// The value that this one stands for.
    pub open spec fn tree(self) -> Tree
        decreases self,
    {
        match self {
            Json::Null => Tree::Null,
            Json::Bool(b) => Tree::Bool(b),
            Json::Number(n) => Tree::Number(n@),
            Json::Text(s) => Tree::Text(s@),
            Json::List(v) => Tree::List(
                Seq::new(
                    v@.len(),
                    |i: int|
                        if 0 <= i < v@.len() {
                            v@[i].tree()
                        } else {
                            Tree::Null
                        },
                ),
            ),
            Json::Object(v) => Tree::Object(
                Seq::new(
                    v@.len(),
                    |i: int|
                        if 0 <= i < v@.len() {
                            (v@[i].0@, v@[i].1.tree())
                        } else {
                            (Seq::<char>::empty(), Tree::Null)
                        },
                ),
            ),
        }
    }
}

impl View for Json {
    type V = Tree;

    open spec fn view(&self) -> Tree {
        self.tree()
    }
}


/// The fields of the model of an object.
pub open spec fn field_views(v: Seq<(String, Json)>) -> Seq<(Seq<char>, Tree)> {
    v.map_values(|f: (String, Json)| (f.0@, f.1@))
}

/// The members of the model of a list.
pub open spec fn item_views(v: Seq<Json>) -> Seq<Tree> {
    v.map_values(|j: Json| j@)
}

/// What the model of a list or an object holds.
pub proof fn lemma_tree(j: Json)
    ensures
        j matches Json::List(v) ==> j@ == Tree::List(item_views(v@)),
        j matches Json::Object(v) ==> j@ == Tree::Object(field_views(v@)),
{
    match j {
        Json::List(v) => {
            assert(j@->List_0 =~= item_views(v@));
        },
        Json::Object(v) => {
            assert(j@->Object_0 =~= field_views(v@));
        },
        _ => {},
    }
}

// ---------------------------------------------------------------------------------------------
// Objects
// ---------------------------------------------------------------------------------------------

/// Whether `a` stands before `b` in the order of keys: by the first character that differs, a
/// prefix first.
pub open spec fn precedes(a: Seq<char>, b: Seq<char>) -> bool
    decreases a.len(),
{
    if b.len() == 0 {
        false
    } else if a.len() == 0 {
        true
    } else if a[0] != b[0] {
        a[0] < b[0]
    } else {
        precedes(a.subrange(1, a.len() as int), b.subrange(1, b.len() as int))
    }
}

/// Whether the keys are in ascending order, each once.
pub open spec fn ordered(fields: Seq<(Seq<char>, Tree)>) -> bool {
    forall|i: int, j: int| 0 <= i < j < fields.len() ==> precedes(fields[i].0, fields[j].0)
}

/// The value under `key`.
pub open spec fn lookup(fields: Seq<(Seq<char>, Tree)>, key: Seq<char>) -> Option<Tree>
    decreases fields.len(),
{
    if fields.len() == 0 {
        None
    } else if fields[0].0 == key {
        Some(fields[0].1)
    } else {
        lookup(fields.subrange(1, fields.len() as int), key)
    }
}

/// `fields` with `value` under `key`, in place of what was there or where the order puts it.
pub open spec fn with_field(fields: Seq<(Seq<char>, Tree)>, key: Seq<char>, value: Tree) -> Seq<
    (Seq<char>, Tree),
>
    decreases fields.len(),
{
    if fields.len() == 0 {
        seq![(key, value)]
    } else if fields[0].0 == key {
        fields.update(0, (key, value))
    } else if precedes(key, fields[0].0) {
        seq![(key, value)] + fields
    } else {
        seq![fields[0]] + with_field(fields.subrange(1, fields.len() as int), key, value)
    }
}

/// The object that the pairs make, put in one after the other.
pub open spec fn object_of(pairs: Seq<(Seq<char>, Tree)>) -> Seq<(Seq<char>, Tree)>
    decreases pairs.len(),
{
    if pairs.len() == 0 {
        Seq::empty()
    } else {
        with_field(object_of(pairs.drop_last()), pairs.last().0, pairs.last().1)
    }
}

/// The value of the field `key` of `t`: none where `t` is no object or has no such field.
pub open spec fn field(t: Tree, key: Seq<char>) -> Option<Tree> {
    match t {
        Tree::Object(fields) => lookup(fields, key),
        _ => None,
    }
}

/// The text that `t` is, where it is one.
pub open spec fn text_of(t: Option<Tree>) -> Option<Seq<char>> {
    match t {
        Some(Tree::Text(s)) => Some(s),
        _ => None,
    }
}

/// The unsigned integer that `t` is, where it is one.
pub open spec fn unsigned_of(t: Option<Tree>) -> Option<u64> {
    match t {
        Some(Tree::Number(NumberView::Unsigned(n))) => Some(n),
        _ => None,
    }
}

/// The integer that `t` is, where it is one that fits.
pub open spec fn integer_of(t: Option<Tree>) -> Option<i64> {
    match t {
        Some(Tree::Number(NumberView::Unsigned(n))) => if n <= i64::MAX {
            Some(n as i64)
        } else {
            None
        },
        Some(Tree::Number(NumberView::Negative(n))) => Some(n),
        _ => None,
    }
}

/// The boolean that `t` is, where it is one.
pub open spec fn bool_of(t: Option<Tree>) -> Option<bool> {
    match t {
        Some(Tree::Bool(b)) => Some(b),
        _ => None,
    }
}

/// The text in the field `key` of `t`, where there is one.
pub open spec fn text_field(t: Tree, key: Seq<char>) -> Option<Seq<char>> {
    text_of(field(t, key))
}

/// Whether `a` stands before `b` in the order of keys.
pub fn comes_before(a: &str, b: &str) -> (r: bool)
    ensures
        r == precedes(a@, b@),
{
    let x = chars_of(a);
    let y = chars_of(b);
    let mut i: usize = 0;
    assert(a@.subrange(0, a@.len() as int) == a@);
    assert(b@.subrange(0, b@.len() as int) == b@);
    while i < x.len() && i < y.len()
        invariant
            i <= x.len(),
            i <= y.len(),
            x@ == a@,
            y@ == b@,
            precedes(a@, b@) == precedes(
                a@.subrange(i as int, a@.len() as int),
                b@.subrange(i as int, b@.len() as int),
            ),
        decreases x.len() - i,
    {
        let ghost s = a@.subrange(i as int, a@.len() as int);
        let ghost t = b@.subrange(i as int, b@.len() as int);
        assert(s[0] == x@[i as int] && t[0] == y@[i as int]);
        if x[i] != y[i] {
            return x[i] < y[i];
        }
        assert(s.subrange(1, s.len() as int) == a@.subrange(i + 1, a@.len() as int));
        assert(t.subrange(1, t.len() as int) == b@.subrange(i + 1, b@.len() as int));
        i = i + 1;
    }
    i < y.len()
}

impl Number {
    /// A copy of this number.
    pub fn copy(&self) -> (r: Number)
        ensures
            r@ == self@,
    {
        match self {
            Number::Unsigned(n) => Number::Unsigned(*n),
            Number::Negative(n) => Number::Negative(*n),
            Number::Float(m, t) => Number::Float(*m, t.clone()),
        }
    }
}

/// The quantity nearest to a number.
pub open spec fn measure_of(n: NumberView) -> Measure {
    match n {
        NumberView::Unsigned(v) => Measure { bits: nearest_bits(v as nat) as u64 },
        NumberView::Negative(v) => if v < 0 {
            Measure { bits: (nearest_bits((-v) as nat) + 0x8000_0000_0000_0000) as u64 }
        } else {
            Measure { bits: nearest_bits(v as nat) as u64 }
        },
        NumberView::Float(m, _) => m,
    }
}

impl Number {
    /// The quantity nearest to this number.
    pub fn measure(&self) -> (r: Measure)
        ensures
            r == measure_of(self@),
    {
        match self {
            Number::Unsigned(v) => Measure::from_unsigned(*v),
            Number::Negative(v) => {
                if *v >= 0 {
                    return Measure::from_unsigned(*v as u64);
                }
                let magnitude: u64 = if *v == i64::MIN {
                    0x8000_0000_0000_0000
                } else {
                    (-*v) as u64
                };
                let m = Measure::from_unsigned(magnitude);
                Measure { bits: m.bits + 0x8000_0000_0000_0000 }
            },
            Number::Float(m, _) => *m,
        }
    }
}

impl Json {
    /// A copy of this value.
    pub fn copy(&self) -> (r: Json)
        ensures
            r@ == self@,
        decreases self,
    {
        match self {
            Json::Null => Json::Null,
            Json::Bool(b) => Json::Bool(*b),
            Json::Number(n) => Json::Number(n.copy()),
            Json::Text(s) => Json::Text(s.clone()),
            Json::List(v) => {
                let mut out: Vec<Json> = Vec::new();
                let mut i: usize = 0;
                while i < v.len()
                    invariant
                        i <= v.len(),
                        *self == Json::List(*v),
                        item_views(out@) == item_views(v@.subrange(0, i as int)),
                    decreases v.len() - i,
                {
                    let ghost before = out@;
                    assert(decreases_to!(*self => self->List_0));
                    assert(decreases_to!(*v => v@));
                    assert(decreases_to!(v@ => v@[i as int]));
                    out.push(v[i].copy());
                    proof {
                        assert(item_views(out@) == item_views(before).push(v@[i as int]@));
                        assert(item_views(v@.subrange(0, i + 1)) == item_views(
                            v@.subrange(0, i as int),
                        ).push(v@[i as int]@));
                    }
                    i = i + 1;
                }
                let r = Json::List(out);
                proof {
                    assert(v@.subrange(0, v@.len() as int) == v@);
                    lemma_tree(*self);
                    lemma_tree(r);
                }
                r
            },
            Json::Object(v) => {
                let mut out: Vec<(String, Json)> = Vec::new();
                let mut i: usize = 0;
                while i < v.len()
                    invariant
                        i <= v.len(),
                        *self == Json::Object(*v),
                        field_views(out@) == field_views(v@.subrange(0, i as int)),
                    decreases v.len() - i,
                {
                    let ghost before = out@;
                    assert(decreases_to!(*self => self->Object_0));
                    assert(decreases_to!(*v => v@));
                    assert(decreases_to!(v@ => v@[i as int]));
                    assert(decreases_to!(v@[i as int] => v@[i as int].1));
                    out.push((v[i].0.clone(), v[i].1.copy()));
                    proof {
                        let f = (v@[i as int].0@, v@[i as int].1@);
                        assert(field_views(out@) == field_views(before).push(f));
                        assert(field_views(v@.subrange(0, i + 1)) == field_views(
                            v@.subrange(0, i as int),
                        ).push(f));
                    }
                    i = i + 1;
                }
                let r = Json::Object(out);
                proof {
                    assert(v@.subrange(0, v@.len() as int) == v@);
                    lemma_tree(*self);
                    lemma_tree(r);
                }
                r
            },
        }
    }

    /// The value of the field `key`: none where this is no object or has no such field.
    pub fn get(&self, key: &str) -> (r: Option<&Json>)
        ensures
            r matches Some(j) ==> field(self@, key@) == Some(j@),
            r is None ==> field(self@, key@) is None,
    {
        match self {
            Json::Object(v) => {
                proof {
                    lemma_tree(*self);
                }
                let ghost all = field_views(v@);
                let mut i: usize = 0;
                assert(all.subrange(0, all.len() as int) == all);
                while i < v.len()
                    invariant
                        i <= v.len(),
                        all == field_views(v@),
                        self@ == Tree::Object(all),
                        lookup(all, key@) == lookup(all.subrange(i as int, all.len() as int), key@),
                    decreases v.len() - i,
                {
                    let ghost rest = all.subrange(i as int, all.len() as int);
                    assert(rest[0] == (v@[i as int].0@, v@[i as int].1@));
                    if same(v[i].0.as_str(), key) {
                        return Some(&v[i].1);
                    }
                    assert(rest.subrange(1, rest.len() as int) == all.subrange(
                        i + 1,
                        all.len() as int,
                    ));
                    i = i + 1;
                }
                None
            },
            _ => None,
        }
    }

    /// The text of the field `key`, where it is a text.
    pub fn get_text(&self, key: &str) -> (r: Option<&String>)
        ensures
            r matches Some(s) ==> text_field(self@, key@) == Some(s@),
            r is None ==> text_field(self@, key@) is None,
    {
        match self.get(key) {
            Some(Json::Text(s)) => Some(s),
            _ => None,
        }
    }

    /// The unsigned integer of the field `key`, where it is one.
    pub fn get_u64(&self, key: &str) -> (r: Option<u64>)
        ensures
            r == unsigned_of(field(self@, key@)),
    {
        match self.get(key) {
            Some(Json::Number(Number::Unsigned(n))) => Some(*n),
            _ => None,
        }
    }

    /// The integer of the field `key`, where it is one that fits.
    pub fn get_i64(&self, key: &str) -> (r: Option<i64>)
        ensures
            r == integer_of(field(self@, key@)),
    {
        match self.get(key) {
            Some(Json::Number(Number::Unsigned(n))) => if *n <= i64::MAX as u64 {
                Some(*n as i64)
            } else {
                None
            },
            Some(Json::Number(Number::Negative(n))) => Some(*n),
            _ => None,
        }
    }

    /// The boolean of the field `key`, where it is one.
    pub fn get_bool(&self, key: &str) -> (r: Option<bool>)
        ensures
            r == bool_of(field(self@, key@)),
    {
        match self.get(key) {
            Some(Json::Bool(b)) => Some(*b),
            _ => None,
        }
    }

    /// A text value.
    pub fn text(s: &str) -> (r: Json)
        ensures
            r@ == Tree::Text(s@),
    {
        Json::Text(s.to_owned())
    }

    /// An unsigned integer value.
    pub fn unsigned(n: u64) -> (r: Json)
        ensures
            r@ == Tree::Number(NumberView::Unsigned(n)),
    {
        Json::Number(Number::Unsigned(n))
    }
}

/// The fields of an object, in the order of their keys.
pub struct Fields {
    pub fields: Vec<(String, Json)>,
}

impl View for Fields {
    type V = Seq<(Seq<char>, Tree)>;

    open spec fn view(&self) -> Seq<(Seq<char>, Tree)> {
        field_views(self.fields@)
    }
}

impl Fields {
    /// No field.
    pub fn new() -> (r: Fields)
        ensures
            r@ == Seq::<(Seq<char>, Tree)>::empty(),
    {
        let r = Fields { fields: Vec::new() };
        assert(r@ =~= Seq::empty());
        r
    }

    /// Puts `value` under `key`, in place of what was there or where the order puts it.
    pub fn put(&mut self, key: &str, value: Json)
        ensures
            final(self)@ == with_field(old(self)@, key@, value@),
    {
        let ghost all = self@;
        let ghost orig = self.fields@;
        let mut i: usize = 0;
        assert(all.subrange(0, all.len() as int) == all);
        assert(all.subrange(0, 0) + with_field(all, key@, value@) == with_field(
            all,
            key@,
            value@,
        ));
        while i < self.fields.len()
            invariant
                i <= self.fields.len(),
                self.fields@ == orig,
                all == field_views(orig),
                all == old(self)@,
                with_field(all, key@, value@) == all.subrange(0, i as int) + with_field(
                    all.subrange(i as int, all.len() as int),
                    key@,
                    value@,
                ),
            decreases self.fields.len() - i,
        {
            let ghost rest = all.subrange(i as int, all.len() as int);
            assert(rest[0] == (orig[i as int].0@, orig[i as int].1@));
            if same(self.fields[i].0.as_str(), key) {
                let k = key.to_owned();
                self.fields.set(i, (k, value));
                assert(self@ == all.update(i as int, (key@, value@)));
                assert(all.subrange(0, i as int) + rest.update(0, (key@, value@)) == all.update(
                    i as int,
                    (key@, value@),
                ));
                return ;
            }
            if comes_before(key, self.fields[i].0.as_str()) {
                let k = key.to_owned();
                self.fields.insert(i, (k, value));
                assert(self@ == all.subrange(0, i as int) + (seq![(key@, value@)] + rest));
                return ;
            }
            assert(rest.subrange(1, rest.len() as int) == all.subrange(i + 1, all.len() as int));
            assert(all.subrange(0, i as int) + (seq![rest[0]] + with_field(
                rest.subrange(1, rest.len() as int),
                key@,
                value@,
            )) == all.subrange(0, i + 1) + with_field(
                rest.subrange(1, rest.len() as int),
                key@,
                value@,
            ));
            i = i + 1;
        }
        let k = key.to_owned();
        self.fields.push((k, value));
        assert(all.subrange(0, all.len() as int) == all);
        assert(self@ == all + seq![(key@, value@)]);
    }

    /// Whether there is a field `key`.
    pub fn has(&self, key: &str) -> (r: bool)
        ensures
            r == (lookup(self@, key@) is Some),
    {
        let mut i: usize = 0;
        let ghost all = self@;
        assert(all.subrange(0, all.len() as int) == all);
        while i < self.fields.len()
            invariant
                i <= self.fields.len(),
                all == self@,
                lookup(all, key@) == lookup(all.subrange(i as int, all.len() as int), key@),
            decreases self.fields.len() - i,
        {
            let ghost rest = all.subrange(i as int, all.len() as int);
            assert(rest[0] == (self.fields@[i as int].0@, self.fields@[i as int].1@));
            if same(self.fields[i].0.as_str(), key) {
                return true;
            }
            assert(rest.subrange(1, rest.len() as int) == all.subrange(i + 1, all.len() as int));
            i = i + 1;
        }
        false
    }

    /// The object with these fields.
    pub fn object(self) -> (r: Json)
        ensures
            r@ == Tree::Object(self@),
    {
        let r = Json::Object(self.fields);
        proof {
            lemma_tree(r);
        }
        r
    }
}

/// `t` with `value` under `key`, where it is an object, else `t` as it is.
pub open spec fn with_entry(t: Tree, key: Seq<char>, value: Tree) -> Tree {
    match t {
        Tree::Object(f) => Tree::Object(with_field(f, key, value)),
        _ => t,
    }
}

impl Json {
    /// This value with another under `key`, where it is an object, else as it is.
    pub fn with(self, key: &str, value: Json) -> (r: Json)
        ensures
            r@ == with_entry(self@, key@, value@),
    {
        proof {
            lemma_tree(self);
        }
        match self {
            Json::Object(f) => {
                let mut fields = Fields { fields: f };
                fields.put(key, value);
                fields.object()
            },
            other => other,
        }
    }

    /// A list of values.
    pub fn list(items: Vec<Json>) -> (r: Json)
        ensures
            r@ == Tree::List(item_views(items@)),
    {
        let r = Json::List(items);
        proof {
            lemma_tree(r);
        }
        r
    }
}

/// The model of an unsigned integer.
pub open spec fn count_tree(n: nat) -> Tree {
    Tree::Number(NumberView::Unsigned(n as u64))
}

/// The model of an optional text: null where there is none.
pub open spec fn opt_text_tree(s: Option<Seq<char>>) -> Tree {
    match s {
        Some(t) => Tree::Text(t),
        None => Tree::Null,
    }
}

/// The view of an optional string.
pub open spec fn opt_view(s: Option<String>) -> Option<Seq<char>> {
    match s {
        Some(t) => Some(t@),
        None => None,
    }
}

/// The model of an integer.
pub open spec fn int_tree(n: int) -> Tree {
    if n < 0 {
        Tree::Number(NumberView::Negative(n as i64))
    } else {
        Tree::Number(NumberView::Unsigned(n as u64))
    }
}

/// An integer value.
pub fn int_json(n: i64) -> (r: Json)
    ensures
        r@ == int_tree(n as int),
{
    if n < 0 {
        Json::Number(Number::Negative(n))
    } else {
        Json::Number(Number::Unsigned(n as u64))
    }
}

/// The view of an optional string slice.
pub open spec fn str_view(s: Option<&str>) -> Option<Seq<char>> {
    match s {
        Some(t) => Some(t@),
        None => None,
    }
}

/// Fields in the order in which they are written down.
pub struct Pairs {
    pub items: Vec<(String, Json)>,
}

impl View for Pairs {
    type V = Seq<(Seq<char>, Tree)>;

    open spec fn view(&self) -> Seq<(Seq<char>, Tree)> {
        field_views(self.items@)
    }
}

impl Pairs {
    /// No field.
    pub fn new() -> (r: Pairs)
        ensures
            r@ == Seq::<(Seq<char>, Tree)>::empty(),
    {
        let r = Pairs { items: Vec::new() };
        assert(r@ =~= Seq::empty());
        r
    }

    /// Adds a field.
    pub fn add(&mut self, key: &str, value: Json)
        ensures
            final(self)@ == old(self)@.push((key@, value@)),
    {
        self.items.push((key.to_owned(), value));
        assert(self@ == old(self)@.push((key@, value@)));
    }

    /// Adds a text.
    pub fn text(&mut self, key: &str, value: &str)
        ensures
            final(self)@ == old(self)@.push((key@, Tree::Text(value@))),
    {
        self.add(key, Json::text(value));
    }

    /// Adds a text, or null where there is none.
    pub fn opt_text(&mut self, key: &str, value: &Option<String>)
        ensures
            final(self)@ == old(self)@.push((key@, opt_text_tree(opt_view(*value)))),
    {
        match value {
            Some(t) => self.add(key, Json::text(t.as_str())),
            None => self.add(key, Json::Null),
        }
    }

    /// Adds an unsigned integer.
    pub fn count(&mut self, key: &str, value: u64)
        ensures
            final(self)@ == old(self)@.push((key@, count_tree(value as nat))),
    {
        self.add(key, Json::unsigned(value));
    }

    /// Adds a boolean.
    pub fn flag(&mut self, key: &str, value: bool)
        ensures
            final(self)@ == old(self)@.push((key@, Tree::Bool(value))),
    {
        self.add(key, Json::Bool(value));
    }

    /// Adds a null.
    pub fn null(&mut self, key: &str)
        ensures
            final(self)@ == old(self)@.push((key@, Tree::Null)),
    {
        self.add(key, Json::Null);
    }

    /// Adds a number.
    pub fn number(&mut self, key: &str, value: &Number)
        ensures
            final(self)@ == old(self)@.push((key@, Tree::Number(value@))),
    {
        self.add(key, Json::Number(value.copy()));
    }

    /// The object that the fields make.
    pub fn object(self) -> (r: Json)
        ensures
            r@ == Tree::Object(object_of(self@)),
    {
        let mut out = Fields::new();
        let mut i: usize = 0;
        let ghost all = self@;
        assert(all.subrange(0, 0) =~= Seq::empty());
        while i < self.items.len()
            invariant
                i <= self.items.len(),
                all == self@,
                out@ == object_of(all.subrange(0, i as int)),
            decreases self.items.len() - i,
        {
            proof {
                let next = all.subrange(0, i + 1);
                assert(next.drop_last() == all.subrange(0, i as int));
                assert(next.last() == (self.items@[i as int].0@, self.items@[i as int].1@));
            }
            out.put(self.items[i].0.as_str(), self.items[i].1.copy());
            i = i + 1;
        }
        assert(all.subrange(0, all.len() as int) == all);
        out.object()
    }
}

// ---------------------------------------------------------------------------------------------
// Laws of objects
// ---------------------------------------------------------------------------------------------

/// The order of keys is strict: no key stands before itself.
pub proof fn key_order_is_irreflexive(a: Seq<char>)
    ensures
        !precedes(a, a),
    decreases a.len(),
{
    if a.len() > 0 {
        key_order_is_irreflexive(a.subrange(1, a.len() as int));
    }
}

/// Of two different keys exactly one stands before the other.
pub proof fn key_order_is_total(a: Seq<char>, b: Seq<char>)
    requires
        a != b,
    ensures
        precedes(a, b) != precedes(b, a),
    decreases a.len(),
{
    if a.len() == 0 || b.len() == 0 {
        assert(a.len() == 0 && b.len() == 0 ==> a =~= b);
    } else if a[0] == b[0] {
        let s = a.subrange(1, a.len() as int);
        let t = b.subrange(1, b.len() as int);
        if s == t {
            assert(a =~= seq![a[0]] + s);
            assert(b =~= seq![b[0]] + t);
        }
        key_order_is_total(s, t);
    }
}

/// The order of keys is transitive.
pub proof fn key_order_is_transitive(a: Seq<char>, b: Seq<char>, c: Seq<char>)
    requires
        precedes(a, b),
        precedes(b, c),
    ensures
        precedes(a, c),
    decreases a.len(),
{
    if a.len() > 0 && b.len() > 0 && c.len() > 0 && a[0] == b[0] && b[0] == c[0] {
        key_order_is_transitive(
            a.subrange(1, a.len() as int),
            b.subrange(1, b.len() as int),
            c.subrange(1, c.len() as int),
        );
    }
}

/// A field that was put in is found again under its key, and every other key finds what it found
/// before.
pub proof fn put_is_found(
    fields: Seq<(Seq<char>, Tree)>,
    key: Seq<char>,
    value: Tree,
    other: Seq<char>,
)
    ensures
        lookup(with_field(fields, key, value), other) == if other == key {
            Some(value)
        } else {
            lookup(fields, other)
        },
    decreases fields.len(),
{
    let put = with_field(fields, key, value);
    if fields.len() == 0 {
        assert(put.subrange(1, put.len() as int) =~= Seq::empty());
        assert(lookup(put.subrange(1, put.len() as int), other) is None);
    } else {
        let rest = fields.subrange(1, fields.len() as int);
        if fields[0].0 == key {
            assert(put.subrange(1, put.len() as int) =~= rest);
        } else if precedes(key, fields[0].0) {
            assert(put.subrange(1, put.len() as int) =~= fields);
            if other == key {
            } else {
                assert(lookup(put, other) == lookup(put.subrange(1, put.len() as int), other));
            }
        } else {
            put_is_found(rest, key, value, other);
            assert(put.subrange(1, put.len() as int) =~= with_field(rest, key, value));
            if fields[0].0 == other {
            } else {
                assert(lookup(put, other) == lookup(put.subrange(1, put.len() as int), other));
            }
        }
    }
}

/// Putting a field in keeps the keys in order.
pub proof fn put_keeps_order(fields: Seq<(Seq<char>, Tree)>, key: Seq<char>, value: Tree)
    requires
        ordered(fields),
    ensures
        ordered(with_field(fields, key, value)),
    decreases fields.len(),
{
    let put = with_field(fields, key, value);
    if fields.len() == 0 {
    } else if fields[0].0 == key {
        assert forall|i: int, j: int| 0 <= i < j < put.len() implies precedes(
            put[i].0,
            put[j].0,
        ) by {
            assert(put[i].0 == fields[i].0 && put[j].0 == fields[j].0);
        }
    } else {
        let rest = fields.subrange(1, fields.len() as int);
        assert(ordered(rest)) by {
            assert forall|i: int, j: int| 0 <= i < j < rest.len() implies precedes(
                rest[i].0,
                rest[j].0,
            ) by {
                assert(rest[i] == fields[i + 1] && rest[j] == fields[j + 1]);
            }
        }
        if precedes(key, fields[0].0) {
            assert forall|i: int, j: int| 0 <= i < j < put.len() implies precedes(
                put[i].0,
                put[j].0,
            ) by {
                if i == 0 {
                    if j > 1 {
                        assert(put[j] == fields[j - 1]);
                        assert(precedes(fields[0].0, fields[j - 1].0));
                        key_order_is_transitive(key, fields[0].0, put[j].0);
                    }
                } else {
                    assert(put[i] == fields[i - 1] && put[j] == fields[j - 1]);
                }
            }
        } else {
            key_order_is_total(key, fields[0].0);
            put_keeps_order(rest, key, value);
            let inner = with_field(rest, key, value);
            lemma_put_keys(rest, key, value);
            assert forall|i: int, j: int| 0 <= i < j < put.len() implies precedes(
                put[i].0,
                put[j].0,
            ) by {
                if i == 0 {
                    assert(put[j] == inner[j - 1]);
                    if inner[j - 1].0 != key {
                        let k = choose|k: int| 0 <= k < rest.len() && rest[k].0 == inner[j - 1].0;
                        assert(rest[k] == fields[k + 1]);
                        assert(precedes(fields[0].0, fields[k + 1].0));
                    }
                } else {
                    assert(put[i] == inner[i - 1] && put[j] == inner[j - 1]);
                }
            }
        }
    }
}

/// Every key of an object after a put is the new key or a key that was there.
proof fn lemma_put_keys(fields: Seq<(Seq<char>, Tree)>, key: Seq<char>, value: Tree)
    ensures
        forall|i: int|
            0 <= i < with_field(fields, key, value).len() ==> (#[trigger] with_field(
                fields,
                key,
                value,
            )[i]).0 == key || exists|k: int|
                0 <= k < fields.len() && fields[k].0 == with_field(fields, key, value)[i].0,
    decreases fields.len(),
{
    let put = with_field(fields, key, value);
    if fields.len() == 0 {
    } else {
        let rest = fields.subrange(1, fields.len() as int);
        if fields[0].0 != key && !precedes(key, fields[0].0) {
            lemma_put_keys(rest, key, value);
        }
        let inner = with_field(rest, key, value);
        assert forall|i: int| 0 <= i < put.len() && (#[trigger] put[i]).0 != key implies exists|
            k: int,
        | 0 <= k < fields.len() && fields[k].0 == put[i].0 by {
            if fields[0].0 == key {
                assert(fields[i].0 == put[i].0);
            } else if precedes(key, fields[0].0) {
                assert(fields[i - 1].0 == put[i].0);
            } else if i == 0 {
                assert(fields[0].0 == put[i].0);
            } else {
                assert(put[i] == inner[i - 1]);
                let k = choose|k: int| 0 <= k < rest.len() && rest[k].0 == inner[i - 1].0;
                assert(fields[k + 1].0 == put[i].0);
            }
        }
    }
}

/// The keys of an object made from pairs are in order.
pub proof fn object_is_ordered(pairs: Seq<(Seq<char>, Tree)>)
    ensures
        ordered(object_of(pairs)),
    decreases pairs.len(),
{
    if pairs.len() > 0 {
        object_is_ordered(pairs.drop_last());
        put_keeps_order(object_of(pairs.drop_last()), pairs.last().0, pairs.last().1);
    }
}

/// A value is read back under its key from an object made from pairs, unless a later pair has the
/// same key.
pub proof fn pairs_read_back(pairs: Seq<(Seq<char>, Tree)>, i: int)
    requires
        0 <= i < pairs.len(),
        forall|j: int| i < j < pairs.len() ==> (#[trigger] pairs[j]).0 != pairs[i].0,
    ensures
        lookup(object_of(pairs), pairs[i].0) == Some(pairs[i].1),
    decreases pairs.len(),
{
    let rest = pairs.drop_last();
    put_is_found(object_of(rest), pairs.last().0, pairs.last().1, pairs[i].0);
    if i < rest.len() {
        assert(rest[i] == pairs[i]);
        assert forall|j: int| i < j < rest.len() implies (#[trigger] rest[j]).0 != rest[i].0 by {
            assert(rest[j] == pairs[j]);
        }
        pairs_read_back(rest, i);
    }
}

/// Nothing is read back under a key that no pair has.
pub proof fn only_pairs_read_back(pairs: Seq<(Seq<char>, Tree)>, key: Seq<char>)
    requires
        forall|j: int| 0 <= j < pairs.len() ==> (#[trigger] pairs[j]).0 != key,
    ensures
        lookup(object_of(pairs), key) is None,
    decreases pairs.len(),
{
    if pairs.len() > 0 {
        let rest = pairs.drop_last();
        put_is_found(object_of(rest), pairs.last().0, pairs.last().1, key);
        assert forall|j: int| 0 <= j < rest.len() implies (#[trigger] rest[j]).0 != key by {
            assert(rest[j] == pairs[j]);
        }
        only_pairs_read_back(rest, key);
    }
}

/// The first field under a key is what is found there, and a text, an integer or a truth value is
/// read as what it is and as nothing else.
pub proof fn fields_are_read_by_kind(
    fields: Seq<(Seq<char>, Tree)>,
    key: Seq<char>,
    value: Tree,
    s: Seq<char>,
    n: int,
    b: bool,
)
    ensures
        lookup(seq![(key, value)] + fields, key) == Some(value),
        forall|other: Seq<char>|
            other != key ==> #[trigger] lookup(seq![(key, value)] + fields, other) == lookup(
                fields,
                other,
            ),
        lookup(Seq::empty(), key) is None,
        text_of(Some(Tree::Text(s))) == Some(s),
        text_of(Some(Tree::Bool(b))) is None,
        i64::MIN <= n <= i64::MAX ==> integer_of(Some(int_tree(n))) == Some(n as i64),
        0 <= n <= u64::MAX ==> unsigned_of(Some(int_tree(n))) == Some(n as u64),
        i64::MIN <= n < 0 ==> unsigned_of(Some(int_tree(n))) is None,
        bool_of(Some(Tree::Bool(b))) == Some(b),
        bool_of(Some(Tree::Text(s))) is None,
        text_of(None) is None && integer_of(None) is None && unsigned_of(None) is None && bool_of(
            None,
        ) is None,
        with_entry(Tree::Text(s), key, value) == Tree::Text(s),
{
    let all = seq![(key, value)] + fields;
    assert(all[0] == (key, value));
    assert(all.subrange(1, all.len() as int) =~= fields);
}

/// Of two texts the one comes first that has the smaller character where they first differ, and a text
/// comes before what goes on behind it.
pub proof fn texts_go_by_their_first_difference(
    front: Seq<char>,
    a: char,
    b: char,
    x: Seq<char>,
    y: Seq<char>,
)
    requires
        a < b,
    ensures
        precedes(front + (seq![a] + x), front + (seq![b] + y)),
        !precedes(front + (seq![b] + y), front + (seq![a] + x)),
        precedes(front, front + (seq![a] + x)),
        !precedes(front + (seq![a] + x), front),
    decreases front.len(),
{
    let l = front + (seq![a] + x);
    let r = front + (seq![b] + y);
    if front.len() == 0 {
        assert(l[0] == a && r[0] == b);
    } else {
        let rest = front.subrange(1, front.len() as int);
        texts_go_by_their_first_difference(rest, a, b, x, y);
        assert(l[0] == front[0] && r[0] == front[0]);
        assert(l.subrange(1, l.len() as int) =~= rest + (seq![a] + x));
        assert(r.subrange(1, r.len() as int) =~= rest + (seq![b] + y));
    }
}

} // verus!
