//! The structural type model: the closed set of shapes a component
//! function's parameters and results may take. A shape accompanies every
//! marshalling decision; it is read from the compiled artifact's type
//! information, never inferred from the JSON payload. The union is closed
//! and matched exhaustively, so adding a shape forces every marshalling
//! site to be revisited.

use vstd::prelude::*;

verus! {

/// One declared field of a record shape.
#[derive(Debug)]
pub struct FieldDecl {
    pub name: String,
    pub shape: StructuralType,
}

/// One declared case of a variant shape, with an optional payload shape.
#[derive(Debug)]
pub struct CaseDecl {
    pub name: String,
    pub payload: Option<Box<StructuralType>>,
}

/// The shape of a component parameter or result value.
#[derive(Debug)]
pub enum StructuralType {
    Bool,
    S8,
    S16,
    S32,
    S64,
    U8,
    U16,
    U32,
    U64,
    Float32,
    Float64,
    Char,
    Text,
    OptionOf(Box<StructuralType>),
    /// Fallible result; either side may carry no payload.
    ResultOf(Option<Box<StructuralType>>, Option<Box<StructuralType>>),
    ListOf(Box<StructuralType>),
    TupleOf(Vec<StructuralType>),
    Record(Vec<FieldDecl>),
    Variant(Vec<CaseDecl>),
    Enum(Vec<String>),
    Flags(Vec<String>),
    /// Host/guest resource handle: never marshalled through JSON.
    Resource,
}

/// Mathematical model of a shape.
#[verifier::ext_equal]
pub enum SpecType {
    Bool,
    S8,
    S16,
    S32,
    S64,
    U8,
    U16,
    U32,
    U64,
    Float32,
    Float64,
    Char,
    Text,
    OptionOf(Box<SpecType>),
    ResultOf(Option<Box<SpecType>>, Option<Box<SpecType>>),
    ListOf(Box<SpecType>),
    TupleOf(Seq<SpecType>),
    Record(Seq<(Seq<char>, SpecType)>),
    Variant(Seq<(Seq<char>, Option<SpecType>)>),
    Enum(Seq<Seq<char>>),
    Flags(Seq<Seq<char>>),
    Resource,
}

pub open spec fn view_names(s: Seq<String>) -> Seq<Seq<char>>
    decreases s,
{
    if s.len() == 0 {
        Seq::empty()
    } else {
        seq![s[0]@] + view_names(s.subrange(1, s.len() as int))
    }
}

pub open spec fn view_shape_opt(o: Option<Box<StructuralType>>) -> Option<Box<SpecType>>
    decreases o,
{
    match o {
        Option::None => Option::None,
        Option::Some(b) => Option::Some(Box::new(view_shape(*b))),
    }
}

pub open spec fn view_shape_seq(s: Seq<StructuralType>) -> Seq<SpecType>
    decreases s,
{
    if s.len() == 0 {
        Seq::empty()
    } else {
        seq![view_shape(s[0])] + view_shape_seq(s.subrange(1, s.len() as int))
    }
}

pub open spec fn view_field_decls(s: Seq<FieldDecl>) -> Seq<(Seq<char>, SpecType)>
    decreases s,
{
    if s.len() == 0 {
        Seq::empty()
    } else {
        seq![(s[0].name@, view_shape(s[0].shape))] + view_field_decls(
            s.subrange(1, s.len() as int),
        )
    }
}

pub open spec fn view_case_payload(o: Option<Box<StructuralType>>) -> Option<SpecType>
    decreases o,
{
    match o {
        Option::None => Option::None,
        Option::Some(b) => Option::Some(view_shape(*b)),
    }
}

pub open spec fn view_case_decls(s: Seq<CaseDecl>) -> Seq<(Seq<char>, Option<SpecType>)>
    decreases s,
{
    if s.len() == 0 {
        Seq::empty()
    } else {
        seq![(s[0].name@, view_case_payload(s[0].payload))] + view_case_decls(
            s.subrange(1, s.len() as int),
        )
    }
}

pub open spec fn view_shape(t: StructuralType) -> SpecType
    decreases t,
{
    match t {
        StructuralType::Bool => SpecType::Bool,
        StructuralType::S8 => SpecType::S8,
        StructuralType::S16 => SpecType::S16,
        StructuralType::S32 => SpecType::S32,
        StructuralType::S64 => SpecType::S64,
        StructuralType::U8 => SpecType::U8,
        StructuralType::U16 => SpecType::U16,
        StructuralType::U32 => SpecType::U32,
        StructuralType::U64 => SpecType::U64,
        StructuralType::Float32 => SpecType::Float32,
        StructuralType::Float64 => SpecType::Float64,
        StructuralType::Char => SpecType::Char,
        StructuralType::Text => SpecType::Text,
        StructuralType::OptionOf(inner) => SpecType::OptionOf(Box::new(view_shape(*inner))),
        StructuralType::ResultOf(ok, err) => SpecType::ResultOf(
            view_shape_opt(ok),
            view_shape_opt(err),
        ),
        StructuralType::ListOf(inner) => SpecType::ListOf(Box::new(view_shape(*inner))),
        StructuralType::TupleOf(items) => SpecType::TupleOf(view_shape_seq(items@)),
        StructuralType::Record(fields) => SpecType::Record(view_field_decls(fields@)),
        StructuralType::Variant(cases) => SpecType::Variant(view_case_decls(cases@)),
        StructuralType::Enum(names) => SpecType::Enum(view_names(names@)),
        StructuralType::Flags(names) => SpecType::Flags(view_names(names@)),
        StructuralType::Resource => SpecType::Resource,
    }
}

impl View for StructuralType {
    type V = SpecType;

    open spec fn view(&self) -> SpecType {
        view_shape(*self)
    }
}

/// The view of a name list is the list of character sequences.
pub proof fn lemma_view_names(s: Seq<String>)
    ensures
        view_names(s).len() == s.len(),
        forall|i: int| 0 <= i < s.len() ==> view_names(s)[i] == (#[trigger] s[i])@,
    decreases s,
{
    if s.len() > 0 {
        let tail = s.subrange(1, s.len() as int);
        lemma_view_names(tail);
        assert forall|i: int| 0 <= i < s.len() implies view_names(s)[i] == (s[i])@ by {
            if i > 0 {
                assert(tail[i - 1] == s[i]);
                assert(view_names(s)[i] == view_names(tail)[i - 1]);
            }
        }
    }
}

/// The view of a shape sequence is the sequence of shape views.
pub proof fn lemma_view_shape_seq(s: Seq<StructuralType>)
    ensures
        view_shape_seq(s).len() == s.len(),
        forall|i: int| 0 <= i < s.len() ==> view_shape_seq(s)[i] == view_shape(#[trigger] s[i]),
    decreases s,
{
    if s.len() > 0 {
        let tail = s.subrange(1, s.len() as int);
        lemma_view_shape_seq(tail);
        assert forall|i: int| 0 <= i < s.len() implies view_shape_seq(s)[i] == view_shape(
            s[i],
        ) by {
            if i > 0 {
                assert(tail[i - 1] == s[i]);
                assert(view_shape_seq(s)[i] == view_shape_seq(tail)[i - 1]);
            }
        }
    }
}

/// The view of a field declaration list, pointwise.
pub proof fn lemma_view_field_decls(s: Seq<FieldDecl>)
    ensures
        view_field_decls(s).len() == s.len(),
        forall|i: int|
            0 <= i < s.len() ==> view_field_decls(s)[i] == ((#[trigger] s[i]).name@, view_shape(
                s[i].shape,
            )),
    decreases s,
{
    if s.len() > 0 {
        let tail = s.subrange(1, s.len() as int);
        lemma_view_field_decls(tail);
        assert forall|i: int| 0 <= i < s.len() implies view_field_decls(s)[i] == ((s[i]).name@,
        view_shape(s[i].shape)) by {
            if i > 0 {
                assert(tail[i - 1] == s[i]);
                assert(view_field_decls(s)[i] == view_field_decls(tail)[i - 1]);
            }
        }
    }
}

/// The view of a case declaration list, pointwise.
pub proof fn lemma_view_case_decls(s: Seq<CaseDecl>)
    ensures
        view_case_decls(s).len() == s.len(),
        forall|i: int|
            0 <= i < s.len() ==> view_case_decls(s)[i] == ((#[trigger] s[i]).name@,
            view_case_payload(s[i].payload)),
    decreases s,
{
    if s.len() > 0 {
        let tail = s.subrange(1, s.len() as int);
        lemma_view_case_decls(tail);
        assert forall|i: int| 0 <= i < s.len() implies view_case_decls(s)[i] == ((s[i]).name@,
        view_case_payload(s[i].payload)) by {
            if i > 0 {
                assert(tail[i - 1] == s[i]);
                assert(view_case_decls(s)[i] == view_case_decls(tail)[i - 1]);
            }
        }
    }
}

/// Appending a name appends its character sequence to the view.
pub proof fn lemma_view_names_push(s: Seq<String>, x: String)
    ensures
        view_names(s.push(x)) == view_names(s) + seq![x@],
{
    lemma_view_names(s.push(x));
    lemma_view_names(s);
    assert forall|k: int|
        0 <= k < s.len() + 1 implies view_names(s.push(x))[k] == (view_names(s) + seq![x@])[k] by {
        if k < s.len() {
            assert(s.push(x)[k] == s[k]);
        } else {
            assert(s.push(x)[k] == x);
        }
    }
    assert(view_names(s.push(x)) =~= view_names(s) + seq![x@]);
}

impl Clone for StructuralType {
    /// A clone has the same mathematical shape.
    fn clone(&self) -> (r: Self)
        ensures
            r@ == self@,
    {
        clone_shape(self)
    }
}

impl Clone for FieldDecl {
    /// A clone keeps the field name and shape.
    fn clone(&self) -> (r: Self)
        ensures
            r.name@ == self.name@,
            r.shape@ == self.shape@,
    {
        FieldDecl { name: self.name.clone(), shape: clone_shape(&self.shape) }
    }
}

impl Clone for CaseDecl {
    /// A clone keeps the case name and payload shape.
    fn clone(&self) -> (r: Self)
        ensures
            r.name@ == self.name@,
            view_case_payload(r.payload) == view_case_payload(self.payload),
    {
        let payload = match &self.payload {
            Option::None => Option::None,
            Option::Some(b) => Option::Some(Box::new(clone_shape(b))),
        };
        CaseDecl { name: self.name.clone(), payload }
    }
}

/// Clones a list of names, keeping each one's characters.
pub fn clone_names(names: &Vec<String>) -> (r: Vec<String>)
    ensures
        view_names(r@) == view_names(names@),
{
    let mut out: Vec<String> = Vec::new();
    let mut i: usize = 0;
    while i < names.len()
        invariant
            i <= names.len(),
            out@.len() == i as int,
            forall|k: int| 0 <= k < i as int ==> (#[trigger] out@[k])@ == names@[k]@,
        decreases names.len() - i,
    {
        let c = names[i].clone();
        out.push(c);
        i += 1;
    }
    proof {
        lemma_view_names(out@);
        lemma_view_names(names@);
        assert forall|k: int| 0 <= k < out@.len() implies view_names(out@)[k] == view_names(
            names@,
        )[k] by {
            assert(out@[k]@ == names@[k]@);
        }
        assert(view_names(out@) =~= view_names(names@));
    }
    out
}

fn clone_shape(t: &StructuralType) -> (r: StructuralType)
    ensures
        r@ == t@,
    decreases t,
{
    match t {
        StructuralType::Bool => StructuralType::Bool,
        StructuralType::S8 => StructuralType::S8,
        StructuralType::S16 => StructuralType::S16,
        StructuralType::S32 => StructuralType::S32,
        StructuralType::S64 => StructuralType::S64,
        StructuralType::U8 => StructuralType::U8,
        StructuralType::U16 => StructuralType::U16,
        StructuralType::U32 => StructuralType::U32,
        StructuralType::U64 => StructuralType::U64,
        StructuralType::Float32 => StructuralType::Float32,
        StructuralType::Float64 => StructuralType::Float64,
        StructuralType::Char => StructuralType::Char,
        StructuralType::Text => StructuralType::Text,
        StructuralType::OptionOf(inner) => StructuralType::OptionOf(Box::new(clone_shape(inner))),
        StructuralType::ResultOf(ok, err) => {
            let ok2 = clone_shape_opt(ok);
            let err2 = clone_shape_opt(err);
            let r = StructuralType::ResultOf(ok2, err2);
            proof {
                assert(r@ =~= t@);
            }
            r
        },
        StructuralType::ListOf(inner) => StructuralType::ListOf(Box::new(clone_shape(inner))),
        StructuralType::TupleOf(items) => {
            let out = clone_shape_list(items);
            let r = StructuralType::TupleOf(out);
            proof {
                assert(r@ =~= t@);
            }
            r
        },
        StructuralType::Record(fields) => {
            let out = clone_field_decls(fields);
            let r = StructuralType::Record(out);
            proof {
                assert(r@ =~= t@);
            }
            r
        },
        StructuralType::Variant(cases) => {
            let out = clone_case_decls(cases);
            let r = StructuralType::Variant(out);
            proof {
                assert(r@ =~= t@);
            }
            r
        },
        StructuralType::Enum(names) => {
            let out = clone_names(names);
            let r = StructuralType::Enum(out);
            proof {
                assert(r@ =~= t@);
            }
            r
        },
        StructuralType::Flags(names) => {
            let out = clone_names(names);
            let r = StructuralType::Flags(out);
            proof {
                assert(r@ =~= t@);
            }
            r
        },
        StructuralType::Resource => StructuralType::Resource,
    }
}

fn clone_shape_opt(o: &Option<Box<StructuralType>>) -> (r: Option<Box<StructuralType>>)
    ensures
        view_shape_opt(r) == view_shape_opt(*o),
    decreases o,
{
    match o {
        Option::None => Option::None,
        Option::Some(b) => {
            let c = clone_shape(b);
            let r = Option::Some(Box::new(c));
            proof {
                assert(view_shape_opt(r) =~= view_shape_opt(*o));
            }
            r
        },
    }
}

/// Clones a list of shapes, keeping each one's mathematical shape.
pub fn clone_shape_list(items: &Vec<StructuralType>) -> (r: Vec<StructuralType>)
    ensures
        view_shape_seq(r@) == view_shape_seq(items@),
        r@.len() == items@.len(),
    decreases items,
{
    let mut out: Vec<StructuralType> = Vec::new();
    let mut i: usize = 0;
    while i < items.len()
        invariant
            i <= items.len(),
            out@.len() == i as int,
            forall|k: int| 0 <= k < i as int ==> view_shape(#[trigger] out@[k]) == view_shape(
                items@[k],
            ),
        decreases items.len() - i,
    {
        let c = clone_shape(&items[i]);
        out.push(c);
        i += 1;
    }
    proof {
        lemma_view_shape_seq(out@);
        lemma_view_shape_seq(items@);
        assert forall|k: int| 0 <= k < out@.len() implies view_shape_seq(out@)[k]
            == view_shape_seq(items@)[k] by {
            assert(view_shape(out@[k]) == view_shape(items@[k]));
        }
        assert(view_shape_seq(out@) =~= view_shape_seq(items@));
    }
    out
}

fn clone_field_decls(fields: &Vec<FieldDecl>) -> (r: Vec<FieldDecl>)
    ensures
        view_field_decls(r@) == view_field_decls(fields@),
    decreases fields,
{
    let mut out: Vec<FieldDecl> = Vec::new();
    let mut i: usize = 0;
    while i < fields.len()
        invariant
            i <= fields.len(),
            out@.len() == i as int,
            forall|k: int|
                0 <= k < i as int ==> (#[trigger] out@[k]).name@ == fields@[k].name@ && view_shape(
                    out@[k].shape,
                ) == view_shape(fields@[k].shape),
        decreases fields.len() - i,
    {
        let name = fields[i].name.clone();
        let shape = clone_shape(&fields[i].shape);
        out.push(FieldDecl { name, shape });
        i += 1;
    }
    proof {
        lemma_view_field_decls(out@);
        lemma_view_field_decls(fields@);
        assert forall|k: int| 0 <= k < out@.len() implies view_field_decls(out@)[k]
            == view_field_decls(fields@)[k] by {
            assert(out@[k].name@ == fields@[k].name@);
            assert(view_shape(out@[k].shape) == view_shape(fields@[k].shape));
        }
        assert(view_field_decls(out@) =~= view_field_decls(fields@));
    }
    out
}

fn clone_case_decls(cases: &Vec<CaseDecl>) -> (r: Vec<CaseDecl>)
    ensures
        view_case_decls(r@) == view_case_decls(cases@),
    decreases cases,
{
    let mut out: Vec<CaseDecl> = Vec::new();
    let mut i: usize = 0;
    while i < cases.len()
        invariant
            i <= cases.len(),
            out@.len() == i as int,
            forall|k: int|
                0 <= k < i as int ==> (#[trigger] out@[k]).name@ == cases@[k].name@
                    && view_case_payload(out@[k].payload) == view_case_payload(cases@[k].payload),
        decreases cases.len() - i,
    {
        let name = cases[i].name.clone();
        let payload = match &cases[i].payload {
            Option::None => Option::None,
            Option::Some(b) => Option::Some(Box::new(clone_shape(b))),
        };
        out.push(CaseDecl { name, payload });
        i += 1;
    }
    proof {
        lemma_view_case_decls(out@);
        lemma_view_case_decls(cases@);
        assert forall|k: int| 0 <= k < out@.len() implies view_case_decls(out@)[k]
            == view_case_decls(cases@)[k] by {
            assert(out@[k].name@ == cases@[k].name@);
            assert(view_case_payload(out@[k].payload) == view_case_payload(cases@[k].payload));
        }
        assert(view_case_decls(out@) =~= view_case_decls(cases@));
    }
    out
}

} // verus!
