//! Self-describing documents and how values are written as documents.
use crate::outside;
use crate::table;
use vstd::prelude::*;
use vstd::string::*;

verus! {

/// The fields of a record after each was stored under its name in turn.
pub open spec fn latest(fields: Seq<(Seq<char>, WireView)>) -> Seq<(Seq<char>, WireView)>
    decreases fields.len(),
{
    if fields.len() == 0 {
        Seq::empty()
    } else {
        table::put(latest(fields.drop_last()), fields.last().0, fields.last().1)
    }
}

/// A document: the common shape of the JSON and CBOR forms.
pub enum Wire {
    Null,
    Bool(bool),
    Unsigned(u64),
    /// A negative number.
    Signed(i64),
    Text(String),
    List(Vec<Wire>),
    Record(Vec<(String, Wire)>),
}

/// The mathematical form of a document.
pub enum WireView {
    Null,
    Bool(bool),
    Unsigned(u64),
    Signed(i64),
    /// A number that is no integer of these, by the bits of its floating-point
    /// form. Documents that are read can hold one; none that is written does.
    Real(u64),
    Text(Seq<char>),
    List(Seq<WireView>),
    Record(Seq<(Seq<char>, WireView)>),
}

/// The mathematical form of a document.
pub open spec fn wire_view(w: Wire) -> WireView
    decreases w,
{
    match w {
        Wire::Null => WireView::Null,
        Wire::Bool(b) => WireView::Bool(b),
        Wire::Unsigned(n) => WireView::Unsigned(n),
        Wire::Signed(n) => WireView::Signed(n),
        Wire::Text(t) => WireView::Text(t@),
        Wire::List(items) => WireView::List(
            Seq::new(
                items@.len(),
                |i: int|
                    if 0 <= i < items@.len() {
                        wire_view(items@[i])
                    } else {
                        WireView::Null
                    },
            ),
        ),
        Wire::Record(fields) => WireView::Record(
            Seq::new(
                fields@.len(),
                |i: int|
                    if 0 <= i < fields@.len() {
                        (fields@[i].0@, wire_view(fields@[i].1))
                    } else {
                        (Seq::empty(), WireView::Null)
                    },
            ),
        ),
    }
}

impl DeepView for Wire {
    type V = WireView;

    open spec fn deep_view(&self) -> WireView {
        wire_view(*self)
    }
}

/// The value of a field of a document, if it is a record with that field.
pub open spec fn field(w: WireView, name: Seq<char>) -> Option<WireView> {
    match w {
        WireView::Record(fields) => table::find(fields, name),
        _ => None,
    }
}

/// The fields of a record under construction.
pub struct Fields {
    pub items: Vec<(String, Wire)>,
}

impl Fields {
    /// The fields so far, in order.
    pub open spec fn view(&self) -> Seq<(Seq<char>, WireView)> {
        Seq::new(
            self.items@.len(),
            |i: int|
                if 0 <= i < self.items@.len() {
                    (self.items@[i].0@, wire_view(self.items@[i].1))
                } else {
                    (Seq::empty(), WireView::Null)
                },
        )
    }

    /// No fields.
    pub fn new() -> (r: Fields)
        ensures
            r@ == Seq::<(Seq<char>, WireView)>::empty(),
    {
        let r = Fields { items: Vec::new() };
        assert(r@ =~= Seq::<(Seq<char>, WireView)>::empty());
        r
    }

    /// One more field at the end.
    pub fn with(self, name: &str, value: Wire) -> (r: Fields)
        ensures
            r@ == self@.push((name@, value.deep_view())),
    {
        let ghost before = self@;
        let mut items = self.items;
        items.push((name.to_owned(), value));
        let r = Fields { items };
        assert(r@ =~= before.push((name@, value.deep_view())));
        r
    }

    /// One more field at the end, left out when there is no value.
    pub fn with_some(self, name: &str, value: Option<Wire>) -> (r: Fields)
        ensures
            r@ == push_some(self@, name@, value.deep_view()),
    {
        match value {
            Some(value) => self.with(name, value),
            None => self,
        }
    }

    /// The finished record.
    pub fn done(self) -> (r: Wire)
        ensures
            r.deep_view() == WireView::Record(self@),
    {
        let ghost fields = self@;
        let r = Wire::Record(self.items);
        assert(r.deep_view()->Record_0 =~= fields);
        r
    }
}

/// Appends a field when there is a value for it.
pub open spec fn push_some(
    fields: Seq<(Seq<char>, WireView)>,
    name: Seq<char>,
    value: Option<WireView>,
) -> Seq<(Seq<char>, WireView)> {
    match value {
        Some(value) => fields.push((name, value)),
        None => fields,
    }
}

/// A value with a document form that depends on its view alone.
pub trait Encode: DeepView {
    /// The document of a view.
    spec fn wire(v: Self::V) -> WireView;

    /// Writes the value as a document.
    fn to_wire(&self) -> (r: Wire)
        ensures
            r.deep_view() == Self::wire(self.deep_view()),
    ;
}

/// The document of an optional value that is left out when absent.
pub open spec fn some_wire<T: Encode>(v: Option<T::V>) -> Option<WireView> {
    match v {
        Some(t) => Some(T::wire(t)),
        None => None,
    }
}

/// Writes an optional value that is left out when absent.
pub fn to_some_wire<T: Encode>(v: &Option<T>) -> (r: Option<Wire>)
    ensures
        r.deep_view() == some_wire::<T>(v.deep_view()),
{
    match v {
        Some(t) => Some(t.to_wire()),
        None => None,
    }
}

/// The document of a list that is left out when empty.
pub open spec fn nonempty_wire<T: Encode>(v: Seq<T::V>) -> Option<WireView> {
    if v.len() == 0 {
        None
    } else {
        Some(<Vec<T> as Encode>::wire(v))
    }
}

/// Writes a list that is left out when empty.
pub fn to_nonempty_wire<T: Encode>(v: &Vec<T>) -> (r: Option<Wire>)
    ensures
        r.deep_view() == nonempty_wire::<T>(v.deep_view()),
{
    if v.len() == 0 {
        None
    } else {
        Some(v.to_wire())
    }
}

/// A text document.
pub fn text_wire(s: &str) -> (r: Wire)
    ensures
        r.deep_view() == WireView::Text(s@),
{
    Wire::Text(s.to_owned())
}

impl Encode for bool {
    open spec fn wire(v: bool) -> WireView {
        WireView::Bool(v)
    }

    fn to_wire(&self) -> (r: Wire) {
        Wire::Bool(*self)
    }
}

impl Encode for u8 {
    open spec fn wire(v: u8) -> WireView {
        WireView::Unsigned(v as u64)
    }

    fn to_wire(&self) -> (r: Wire) {
        Wire::Unsigned(*self as u64)
    }
}

impl Encode for u16 {
    open spec fn wire(v: u16) -> WireView {
        WireView::Unsigned(v as u64)
    }

    fn to_wire(&self) -> (r: Wire) {
        Wire::Unsigned(*self as u64)
    }
}

impl Encode for u32 {
    open spec fn wire(v: u32) -> WireView {
        WireView::Unsigned(v as u64)
    }

    fn to_wire(&self) -> (r: Wire) {
        Wire::Unsigned(*self as u64)
    }
}

impl Encode for u64 {
    open spec fn wire(v: u64) -> WireView {
        WireView::Unsigned(v)
    }

    fn to_wire(&self) -> (r: Wire) {
        Wire::Unsigned(*self)
    }
}

impl Encode for usize {
    open spec fn wire(v: usize) -> WireView {
        WireView::Unsigned(v as u64)
    }

    fn to_wire(&self) -> (r: Wire) {
        Wire::Unsigned(*self as u64)
    }
}

impl Encode for i32 {
    open spec fn wire(v: i32) -> WireView {
        if v < 0 {
            WireView::Signed(v as i64)
        } else {
            WireView::Unsigned(v as u64)
        }
    }

    fn to_wire(&self) -> (r: Wire) {
        if *self < 0 {
            Wire::Signed(*self as i64)
        } else {
            Wire::Unsigned(*self as u64)
        }
    }
}

impl Encode for String {
    open spec fn wire(v: Seq<char>) -> WireView {
        WireView::Text(v)
    }

    fn to_wire(&self) -> (r: Wire) {
        Wire::Text(self.clone())
    }
}

impl<T: Encode> Encode for Option<T> {
    open spec fn wire(v: Option<T::V>) -> WireView {
        match v {
            Some(t) => T::wire(t),
            None => WireView::Null,
        }
    }

    fn to_wire(&self) -> (r: Wire) {
        match self {
            Some(t) => t.to_wire(),
            None => Wire::Null,
        }
    }
}

impl<T: Encode> Encode for Box<T> {
    open spec fn wire(v: T::V) -> WireView {
        T::wire(v)
    }

    fn to_wire(&self) -> (r: Wire) {
        (**self).to_wire()
    }
}

impl<T: Encode> Encode for Vec<T> {
    open spec fn wire(v: Seq<T::V>) -> WireView {
        WireView::List(Seq::new(v.len(), |i: int| T::wire(v[i])))
    }

    fn to_wire(&self) -> (r: Wire) {
        let mut items: Vec<Wire> = Vec::new();
        let mut i: usize = 0;
        while i < self.len()
            invariant
                i <= self@.len(),
                items@.len() == i,
                forall|j: int|
                    0 <= j < i ==> (#[trigger] items@[j]).deep_view() == T::wire(
                        self@[j].deep_view(),
                    ),
            decreases self@.len() - i,
        {
            items.push(self[i].to_wire());
            i = i + 1;
        }
        let r = Wire::List(items);
        proof {
            let want = Seq::new(
                self.deep_view().len(),
                |j: int| T::wire(self.deep_view()[j]),
            );
            let got = r.deep_view()->List_0;
            assert forall|j: int| 0 <= j < got.len() implies got[j] == want[j] by {
                assert(items@[j].deep_view() == T::wire(self@[j].deep_view()));
            }
            assert(got =~= want);
        }
        r
    }
}

/// The document of a byte string: a list of numbers.
pub open spec fn bytes_wire(b: Seq<u8>) -> WireView {
    WireView::List(Seq::new(b.len(), |i: int| WireView::Unsigned(b[i] as u64)))
}

/// Writes bytes as a list of numbers.
pub fn to_bytes_wire(b: &[u8]) -> (r: Wire)
    ensures
        r.deep_view() == bytes_wire(b@),
{
    let mut items: Vec<Wire> = Vec::new();
    let mut i: usize = 0;
    while i < b.len()
        invariant
            i <= b@.len(),
            items@.len() == i,
            forall|j: int|
                0 <= j < i ==> (#[trigger] items@[j]).deep_view() == WireView::Unsigned(
                    b@[j] as u64,
                ),
        decreases b@.len() - i,
    {
        items.push(Wire::Unsigned(b[i] as u64));
        i = i + 1;
    }
    let r = Wire::List(items);
    proof {
        let got = r.deep_view()->List_0;
        let want = bytes_wire(b@)->List_0;
        assert forall|j: int| 0 <= j < got.len() implies got[j] == want[j] by {
            assert(items@[j].deep_view() == WireView::Unsigned(b@[j] as u64));
        }
        assert(got =~= want);
    }
    r
}

/// A document as JSON sees it: no name occurs twice in a record, and numbers
/// that are not negative are unsigned.
pub open spec fn json_shape(w: WireView) -> WireView
    decreases w,
{
    match w {
        WireView::Signed(n) => if n < 0 {
            w
        } else {
            WireView::Unsigned(n as u64)
        },
        WireView::List(items) => WireView::List(
            Seq::new(
                items.len(),
                |i: int|
                    if 0 <= i < items.len() {
                        json_shape(items[i])
                    } else {
                        WireView::Null
                    },
            ),
        ),
        WireView::Record(fields) => WireView::Record(latest(json_fields(fields))),
        _ => w,
    }
}

/// The fields of a record as JSON sees their values.
pub open spec fn json_fields(fields: Seq<(Seq<char>, WireView)>) -> Seq<(Seq<char>, WireView)>
    decreases fields,
{
    Seq::new(
        fields.len(),
        |i: int|
            if 0 <= i < fields.len() {
                (fields[i].0, json_shape(fields[i].1))
            } else {
                (Seq::empty(), WireView::Null)
            },
    )
}

/// A document as CBOR sees it: numbers that are not negative are unsigned.
pub open spec fn cbor_shape(w: WireView) -> WireView
    decreases w,
{
    match w {
        WireView::Signed(n) => if n < 0 {
            w
        } else {
            WireView::Unsigned(n as u64)
        },
        WireView::List(items) => WireView::List(
            Seq::new(
                items.len(),
                |i: int|
                    if 0 <= i < items.len() {
                        cbor_shape(items[i])
                    } else {
                        WireView::Null
                    },
            ),
        ),
        WireView::Record(fields) => WireView::Record(
            Seq::new(
                fields.len(),
                |i: int|
                    if 0 <= i < fields.len() {
                        (fields[i].0, cbor_shape(fields[i].1))
                    } else {
                        (Seq::empty(), WireView::Null)
                    },
            ),
        ),
        _ => w,
    }
}

fn json_value(w: &Wire) -> (r: serde_json::Value)
    ensures
        outside::json_model(r) == json_shape(w.deep_view()),
    decreases w,
{
    match w {
        Wire::Null => outside::json_null(),
        Wire::Bool(b) => outside::json_bool(*b),
        Wire::Unsigned(n) => outside::json_unsigned(*n),
        Wire::Signed(n) => if *n < 0 {
            outside::json_signed(*n)
        } else {
            outside::json_unsigned(*n as u64)
        },
        Wire::Text(t) => outside::json_text(t.clone()),
        Wire::List(items) => {
            let mut out: Vec<serde_json::Value> = Vec::new();
            let mut i: usize = 0;
            while i < items.len()
                invariant
                    i <= items@.len(),
                    out@.len() == i,
                    *w == Wire::List(*items),
                    forall|j: int|
                        0 <= j < i ==> outside::json_model(#[trigger] out@[j]) == json_shape(
                            wire_view(items@[j]),
                        ),
                decreases items@.len() - i,
            {
                proof {
                    assert(decreases_to!(*w => w->List_0));
                    assert(decreases_to!(w->List_0 => w->List_0@[i as int]));
                }
                out.push(json_value(&items[i]));
                i = i + 1;
            }
            proof {
                let got = Seq::new(out@.len(), |j: int| outside::json_model(out@[j]));
                assert(got =~= json_shape(w.deep_view())->List_0);
            }
            outside::json_list(out)
        },
        Wire::Record(fields) => {
            let mut out: Vec<(String, serde_json::Value)> = Vec::new();
            let mut i: usize = 0;
            while i < fields.len()
                invariant
                    i <= fields@.len(),
                    out@.len() == i,
                    *w == Wire::Record(*fields),
                    forall|j: int|
                        0 <= j < i ==> (#[trigger] out@[j]).0@ == fields@[j].0@
                            && outside::json_model(out@[j].1) == json_shape(
                            wire_view(fields@[j].1),
                        ),
                decreases fields@.len() - i,
            {
                let field = &fields[i];
                proof {
                    assert(decreases_to!(*w => w->Record_0));
                    assert(decreases_to!(w->Record_0 => w->Record_0@[i as int]));
                    assert(decreases_to!(w->Record_0@[i as int] => w->Record_0@[i as int].1));
                }
                out.push((field.0.clone(), json_value(&field.1)));
                i = i + 1;
            }
            proof {
                let got = Seq::new(
                    out@.len(),
                    |j: int| (out@[j].0@, outside::json_model(out@[j].1)),
                );
                assert(got =~= json_fields(w.deep_view()->Record_0));
            }
            outside::json_record(out)
        },
    }
}

fn cbor_value(w: &Wire) -> (r: ciborium::Value)
    ensures
        outside::cbor_model(r) == cbor_shape(w.deep_view()),
    decreases w,
{
    match w {
        Wire::Null => outside::cbor_null(),
        Wire::Bool(b) => outside::cbor_bool(*b),
        Wire::Unsigned(n) => outside::cbor_unsigned(*n),
        Wire::Signed(n) => if *n < 0 {
            outside::cbor_signed(*n)
        } else {
            outside::cbor_unsigned(*n as u64)
        },
        Wire::Text(t) => outside::cbor_text(t.clone()),
        Wire::List(items) => {
            let mut out: Vec<ciborium::Value> = Vec::new();
            let mut i: usize = 0;
            while i < items.len()
                invariant
                    i <= items@.len(),
                    out@.len() == i,
                    *w == Wire::List(*items),
                    forall|j: int|
                        0 <= j < i ==> outside::cbor_model(#[trigger] out@[j]) == cbor_shape(
                            wire_view(items@[j]),
                        ),
                decreases items@.len() - i,
            {
                proof {
                    assert(decreases_to!(*w => w->List_0));
                    assert(decreases_to!(w->List_0 => w->List_0@[i as int]));
                }
                out.push(cbor_value(&items[i]));
                i = i + 1;
            }
            proof {
                let got = Seq::new(out@.len(), |j: int| outside::cbor_model(out@[j]));
                assert(got =~= cbor_shape(w.deep_view())->List_0);
            }
            outside::cbor_list(out)
        },
        Wire::Record(fields) => {
            let mut out: Vec<(String, ciborium::Value)> = Vec::new();
            let mut i: usize = 0;
            while i < fields.len()
                invariant
                    i <= fields@.len(),
                    out@.len() == i,
                    *w == Wire::Record(*fields),
                    forall|j: int|
                        0 <= j < i ==> (#[trigger] out@[j]).0@ == fields@[j].0@
                            && outside::cbor_model(out@[j].1) == cbor_shape(
                            wire_view(fields@[j].1),
                        ),
                decreases fields@.len() - i,
            {
                let field = &fields[i];
                proof {
                    assert(decreases_to!(*w => w->Record_0));
                    assert(decreases_to!(w->Record_0 => w->Record_0@[i as int]));
                    assert(decreases_to!(w->Record_0@[i as int] => w->Record_0@[i as int].1));
                }
                out.push((field.0.clone(), cbor_value(&field.1)));
                i = i + 1;
            }
            proof {
                let got = Seq::new(
                    out@.len(),
                    |j: int| (out@[j].0@, outside::cbor_model(out@[j].1)),
                );
                assert(got =~= cbor_shape(w.deep_view())->Record_0);
            }
            outside::cbor_record(out)
        },
    }
}

/// The compact JSON form of a document.
pub open spec fn json(w: WireView) -> Seq<u8> {
    outside::json_of(json_shape(w))
}

/// The CBOR form of a document.
pub open spec fn cbor(w: WireView) -> Seq<u8> {
    outside::cbor_of(cbor_shape(w))
}

/// Writes a document as compact JSON.
pub fn json_bytes(w: &Wire) -> (r: Vec<u8>)
    ensures
        r@ == json(w.deep_view()),
{
    outside::json_write(&json_value(w))
}

/// Writes a document as CBOR.
pub fn cbor_bytes(w: &Wire) -> (r: Vec<u8>)
    ensures
        r@ == cbor(w.deep_view()),
{
    outside::cbor_write(&cbor_value(w))
}

} // verus!
