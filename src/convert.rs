use vstd::prelude::*;
use crate::scalars::{
    parse_url, parse_uuid, parse_date, parse_date_time, parse_naive_date_time, url_parsed,
    uuid_parsed, date_parsed, date_time_parsed, naive_date_time_parsed,
};

verus! {

broadcast use vstd::std_specs::vec::group_vec_axioms, vstd::seq::group_seq_axioms;

/// A scalar as the query engine hands it over. A float is held as the bit
/// pattern of its IEEE 754 double.
#[derive(Debug, PartialEq)]
pub enum DefaultScalarValue {
    Int(i32),
    Float(u64),
    String(String),
    Boolean(bool),
}

/// A dynamic value of a live query or of a schema default.
#[derive(Debug, PartialEq)]
pub enum LookAheadValue {
    Null,
    Scalar(DefaultScalarValue),
    Enum(String),
    List(Vec<LookAheadValue>),
    Object(Vec<(String, LookAheadValue)>),
}

/// The tag of a dynamic value, as named in a conversion failure.
#[derive(PartialEq, Eq, Structural, Clone, Copy, Debug)]
pub enum ValueTag {
    Int,
    Float,
    String,
    Boolean,
    Null,
    Enum,
    List,
    Object,
}

/// The host types that dynamic values are converted into.
#[derive(Debug, PartialEq)]
pub enum HostType {
    Int,
    Float,
    String,
    Boolean,
    Id,
    Url,
    Uuid,
    Date,
    DateTime,
    NaiveDateTime,
    /// A value of an enum type of the schema, held by its name.
    Enum,
    /// A value of a custom scalar of the schema, a wrapper around a string.
    Custom,
    List(Box<HostType>),
    Optional(Box<HostType>),
}

/// What a conversion expected where it found a value of another tag.
#[derive(PartialEq, Eq, Structural, Clone, Copy, Debug)]
pub enum Expected {
    Int,
    Float,
    String,
    Boolean,
    Enum,
    List,
}

/// The text formats whose parse can fail.
#[derive(PartialEq, Eq, Structural, Clone, Copy, Debug)]
pub enum ParsedFormat {
    Url,
    Uuid,
    Date,
    DateTime,
    NaiveDateTime,
}

/// Why a dynamic value could not be converted.
#[derive(Debug, PartialEq)]
pub enum ConversionError {
    /// The value's tag does not fit the requested host type.
    Mismatch { expected: Expected, got: ValueTag },
    /// A string did not parse in the requested format; `message` is the
    /// parser's own text.
    Parse { format: ParsedFormat, message: String },
}

/// A typed host value. A float is held as the bit pattern of its double, a
/// URL as its serialization, a UUID as its 128-bit value, a date as its day
/// number counted from 0001-01-01 (day 1), a date-time in UTC as its Unix
/// seconds and nanoseconds, a naive date-time as its Unix seconds read as UTC.
#[derive(Debug, PartialEq)]
pub enum HostValue {
    Int(i32),
    Float(u64),
    String(String),
    Boolean(bool),
    Id(String),
    Url(String),
    Uuid(u128),
    Date(i32),
    DateTime(i64, u32),
    NaiveDateTime(i64),
    Enum(String),
    Custom(String),
    List(Vec<HostValue>),
    Optional(Option<Box<HostValue>>),
}

/// The mathematical model of a host value.
pub enum HostModel {
    Int(i32),
    Float(u64),
    String(Seq<char>),
    Boolean(bool),
    Id(Seq<char>),
    Url(Seq<char>),
    Uuid(u128),
    Date(i32),
    DateTime(i64, u32),
    NaiveDateTime(i64),
    Enum(Seq<char>),
    Custom(Seq<char>),
    List(Seq<HostModel>),
    Optional(Option<Box<HostModel>>),
}

/// The mathematical model of a conversion failure.
pub enum ErrorModel {
    Mismatch { expected: Expected, got: ValueTag },
    Parse { format: ParsedFormat, message: Seq<char> },
}

impl HostValue {
    pub open spec fn model(self) -> HostModel
        decreases self, 0nat,
    {
        match self {
            HostValue::Int(x) => HostModel::Int(x),
            HostValue::Float(x) => HostModel::Float(x),
            HostValue::String(s) => HostModel::String(s@),
            HostValue::Boolean(b) => HostModel::Boolean(b),
            HostValue::Id(s) => HostModel::Id(s@),
            HostValue::Url(s) => HostModel::Url(s@),
            HostValue::Uuid(x) => HostModel::Uuid(x),
            HostValue::Date(d) => HostModel::Date(d),
            HostValue::DateTime(s, n) => HostModel::DateTime(s, n),
            HostValue::NaiveDateTime(s) => HostModel::NaiveDateTime(s),
            HostValue::Enum(s) => HostModel::Enum(s@),
            HostValue::Custom(s) => HostModel::Custom(s@),
            HostValue::List(items) => HostModel::List(models_of(items@, items@.len())),
            HostValue::Optional(None) => HostModel::Optional(None),
            HostValue::Optional(Some(b)) => HostModel::Optional(Some(Box::new((*b).model()))),
        }
    }
}

/// The models of the first `n` items.
pub open spec fn models_of(items: Seq<HostValue>, n: nat) -> Seq<HostModel>
    decreases items, n,
{
    if n == 0 || n > items.len() {
        Seq::empty()
    } else {
        models_of(items, (n - 1) as nat).push(items[n - 1].model())
    }
}

impl ConversionError {
    pub open spec fn model(self) -> ErrorModel {
        match self {
            ConversionError::Mismatch { expected, got } => ErrorModel::Mismatch { expected, got },
            ConversionError::Parse { format, message } => ErrorModel::Parse {
                format,
                message: message@,
            },
        }
    }
}

pub open spec fn result_model(r: Result<HostValue, ConversionError>) -> Result<HostModel, ErrorModel> {
    match r {
        Ok(v) => Ok(v.model()),
        Err(e) => Err(e.model()),
    }
}

/// The tag of a dynamic value.
pub open spec fn spec_tag(v: LookAheadValue) -> ValueTag {
    match v {
        LookAheadValue::Null => ValueTag::Null,
        LookAheadValue::Scalar(DefaultScalarValue::Int(_)) => ValueTag::Int,
        LookAheadValue::Scalar(DefaultScalarValue::Float(_)) => ValueTag::Float,
        LookAheadValue::Scalar(DefaultScalarValue::String(_)) => ValueTag::String,
        LookAheadValue::Scalar(DefaultScalarValue::Boolean(_)) => ValueTag::Boolean,
        LookAheadValue::Enum(_) => ValueTag::Enum,
        LookAheadValue::List(_) => ValueTag::List,
        LookAheadValue::Object(_) => ValueTag::Object,
    }
}

pub open spec fn mismatch(expected: Expected, v: LookAheadValue) -> Result<HostModel, ErrorModel> {
    Err(ErrorModel::Mismatch { expected, got: spec_tag(v) })
}

/// A string first, then the outcome of a format's parse.
pub open spec fn via_string(
    v: LookAheadValue,
    parsed: spec_fn(Seq<char>) -> Result<HostModel, ErrorModel>,
) -> Result<HostModel, ErrorModel> {
    match v {
        LookAheadValue::Scalar(DefaultScalarValue::String(s)) => parsed(s@),
        _ => mismatch(Expected::String, v),
    }
}

pub open spec fn parse_failure(format: ParsedFormat, message: Seq<char>) -> Result<HostModel, ErrorModel> {
    Err(ErrorModel::Parse { format, message })
}

/// What converting the dynamic value `v` into host type `t` gives.
pub open spec fn spec_convert(v: LookAheadValue, t: HostType) -> Result<HostModel, ErrorModel>
    decreases v, t, 0nat,
{
    match t {
        HostType::Int => match v {
            LookAheadValue::Scalar(DefaultScalarValue::Int(x)) => Ok(HostModel::Int(x)),
            _ => mismatch(Expected::Int, v),
        },
        HostType::Float => match v {
            LookAheadValue::Scalar(DefaultScalarValue::Float(x)) => Ok(HostModel::Float(x)),
            _ => mismatch(Expected::Float, v),
        },
        HostType::String => via_string(v, |s: Seq<char>| Ok(HostModel::String(s))),
        HostType::Boolean => match v {
            LookAheadValue::Scalar(DefaultScalarValue::Boolean(b)) => Ok(HostModel::Boolean(b)),
            _ => mismatch(Expected::Boolean, v),
        },
        HostType::Id => via_string(v, |s: Seq<char>| Ok(HostModel::Id(s))),
        HostType::Url => via_string(
            v,
            |s: Seq<char>|
                match url_parsed(s) {
                    Ok(u) => Ok(HostModel::Url(u)),
                    Err(m) => parse_failure(ParsedFormat::Url, m),
                },
        ),
        HostType::Uuid => via_string(
            v,
            |s: Seq<char>|
                match uuid_parsed(s) {
                    Ok(u) => Ok(HostModel::Uuid(u)),
                    Err(m) => parse_failure(ParsedFormat::Uuid, m),
                },
        ),
        HostType::Date => via_string(
            v,
            |s: Seq<char>|
                match date_parsed(s) {
                    Ok(d) => Ok(HostModel::Date(d)),
                    Err(m) => parse_failure(ParsedFormat::Date, m),
                },
        ),
        HostType::DateTime => via_string(
            v,
            |s: Seq<char>|
                match date_time_parsed(s) {
                    Ok((secs, nanos)) => Ok(HostModel::DateTime(secs, nanos)),
                    Err(m) => parse_failure(ParsedFormat::DateTime, m),
                },
        ),
        HostType::NaiveDateTime => via_string(
            v,
            |s: Seq<char>|
                match naive_date_time_parsed(s) {
                    Ok(secs) => Ok(HostModel::NaiveDateTime(secs)),
                    Err(m) => parse_failure(ParsedFormat::NaiveDateTime, m),
                },
        ),
        HostType::Enum => match v {
            LookAheadValue::Enum(n) => Ok(HostModel::Enum(n@)),
            _ => mismatch(Expected::Enum, v),
        },
        HostType::Custom => via_string(v, |s: Seq<char>| Ok(HostModel::Custom(s))),
        HostType::Optional(inner) => match v {
            LookAheadValue::Null => Ok(HostModel::Optional(None)),
            _ => match spec_convert(v, *inner) {
                Ok(x) => Ok(HostModel::Optional(Some(Box::new(x)))),
                Err(e) => Err(e),
            },
        },
        HostType::List(inner) => match v {
            LookAheadValue::List(vals) => match spec_convert_items(vals@, *inner, vals@.len()) {
                Ok(xs) => Ok(HostModel::List(xs)),
                Err(e) => Err(e),
            },
            _ => mismatch(Expected::List, v),
        },
    }
}

/// Converting the first `n` values one by one; the first failure is the
/// outcome.
pub open spec fn spec_convert_items(vals: Seq<LookAheadValue>, t: HostType, n: nat) -> Result<
    Seq<HostModel>,
    ErrorModel,
>
    decreases vals, t, n,
{
    if n == 0 || n > vals.len() {
        Ok(Seq::empty())
    } else {
        match spec_convert_items(vals, t, (n - 1) as nat) {
            Err(e) => Err(e),
            Ok(xs) => match spec_convert(vals[n - 1], t) {
                Ok(x) => Ok(xs.push(x)),
                Err(e) => Err(e),
            },
        }
    }
}

proof fn lemma_models_of_prefix(items: Seq<HostValue>, x: HostValue, n: nat)
    requires
        n <= items.len(),
    ensures
        models_of(items.push(x), n) == models_of(items, n),
    decreases n,
{
    if n > 0 {
        lemma_models_of_prefix(items, x, (n - 1) as nat);
        assert(items.push(x)[n - 1] == items[n - 1]);
    }
}

proof fn lemma_items_failure_stays(vals: Seq<LookAheadValue>, t: HostType, n: nat, m: nat)
    requires
        0 < n <= m <= vals.len(),
        spec_convert_items(vals, t, n) is Err,
    ensures
        spec_convert_items(vals, t, m) == spec_convert_items(vals, t, n),
    decreases m - n,
{
    if m > n {
        lemma_items_failure_stays(vals, t, n, (m - 1) as nat);
    }
}

fn tag(v: &LookAheadValue) -> (r: ValueTag)
    ensures
        r == spec_tag(*v),
{
    match v {
        LookAheadValue::Null => ValueTag::Null,
        LookAheadValue::Scalar(DefaultScalarValue::Int(_)) => ValueTag::Int,
        LookAheadValue::Scalar(DefaultScalarValue::Float(_)) => ValueTag::Float,
        LookAheadValue::Scalar(DefaultScalarValue::String(_)) => ValueTag::String,
        LookAheadValue::Scalar(DefaultScalarValue::Boolean(_)) => ValueTag::Boolean,
        LookAheadValue::Enum(_) => ValueTag::Enum,
        LookAheadValue::List(_) => ValueTag::List,
        LookAheadValue::Object(_) => ValueTag::Object,
    }
}

fn mismatch_of(expected: Expected, v: &LookAheadValue) -> (r: Result<HostValue, ConversionError>)
    ensures
        result_model(r) == mismatch(expected, *v),
{
    Err(ConversionError::Mismatch { expected, got: tag(v) })
}

/// Converts a dynamic value into host type `t`: a value whose tag fits the
/// type is unwrapped, `null` becomes an absent optional, a list converts item
/// by item, an identifier, URL, UUID, date or date-time is read from a string
/// first; any other value is a mismatch naming what was expected and the tag
/// found, and a string that does not parse carries the parser's message.
///
/// Deliberate deviation: a mismatch or a failed parse means the query engine
/// and this layer disagree about a value already validated against the
/// schema. Rather than abort the process, the failure comes back as a
/// `ConversionError` for the caller to raise at the query-resolution
/// boundary, so that one bad request fails instead of the whole server.
pub fn convert(v: &LookAheadValue, t: &HostType) -> (r: Result<HostValue, ConversionError>)
    ensures
        result_model(r) == spec_convert(*v, *t),
    decreases v, t,
{
    match t {
        HostType::Int => match v {
            LookAheadValue::Scalar(DefaultScalarValue::Int(x)) => Ok(HostValue::Int(*x)),
            _ => mismatch_of(Expected::Int, v),
        },
        HostType::Float => match v {
            LookAheadValue::Scalar(DefaultScalarValue::Float(x)) => Ok(HostValue::Float(*x)),
            _ => mismatch_of(Expected::Float, v),
        },
        HostType::Boolean => match v {
            LookAheadValue::Scalar(DefaultScalarValue::Boolean(b)) => Ok(HostValue::Boolean(*b)),
            _ => mismatch_of(Expected::Boolean, v),
        },
        HostType::Enum => match v {
            LookAheadValue::Enum(n) => Ok(HostValue::Enum(n.clone())),
            _ => mismatch_of(Expected::Enum, v),
        },
        HostType::Optional(inner) => match v {
            LookAheadValue::Null => Ok(HostValue::Optional(None)),
            _ => match convert(v, inner) {
                Ok(x) => Ok(HostValue::Optional(Some(Box::new(x)))),
                Err(e) => Err(e),
            },
        },
        HostType::List(inner) => match v {
            LookAheadValue::List(vals) => {
                let mut out: Vec<HostValue> = Vec::new();
                let mut i: usize = 0;
                while i < vals.len()
                    invariant
                        *v == LookAheadValue::List(*vals),
                        *t == HostType::List(*inner),
                        i <= vals@.len(),
                        out@.len() == i,
                        spec_convert_items(vals@, **inner, i as nat) == Ok::<
                            Seq<HostModel>,
                            ErrorModel,
                        >(models_of(out@, i as nat)),
                    decreases vals@.len() - i,
                {
                    proof {
                        assert(decreases_to!(*v => *vals));
                        assert(decreases_to!(*vals => vals[i as int]));
                    }
                    match convert(&vals[i], inner) {
                        Ok(x) => {
                            proof {
                                lemma_models_of_prefix(out@, x, i as nat);
                            }
                            out.push(x);
                            i = i + 1;
                        },
                        Err(e) => {
                            proof {
                                lemma_items_failure_stays(vals@, **inner, (i + 1) as nat, vals@.len());
                            }
                            return Err(e);
                        },
                    }
                }
                Ok(HostValue::List(out))
            },
            _ => mismatch_of(Expected::List, v),
        },
        _ => match v {
            LookAheadValue::Scalar(DefaultScalarValue::String(s)) => match t {
                HostType::String => Ok(HostValue::String(s.clone())),
                HostType::Id => Ok(HostValue::Id(s.clone())),
                HostType::Custom => Ok(HostValue::Custom(s.clone())),
                HostType::Url => match parse_url(s.as_str()) {
                    Ok(u) => Ok(HostValue::Url(u)),
                    Err(message) => Err(ConversionError::Parse { format: ParsedFormat::Url, message }),
                },
                HostType::Uuid => match parse_uuid(s.as_str()) {
                    Ok(u) => Ok(HostValue::Uuid(u)),
                    Err(message) => Err(ConversionError::Parse { format: ParsedFormat::Uuid, message }),
                },
                HostType::Date => match parse_date(s.as_str()) {
                    Ok(d) => Ok(HostValue::Date(d)),
                    Err(message) => Err(ConversionError::Parse { format: ParsedFormat::Date, message }),
                },
                HostType::DateTime => match parse_date_time(s.as_str()) {
                    Ok((secs, nanos)) => Ok(HostValue::DateTime(secs, nanos)),
                    Err(message) => Err(
                        ConversionError::Parse { format: ParsedFormat::DateTime, message },
                    ),
                },
                _ => match parse_naive_date_time(s.as_str()) {
                    Ok(secs) => Ok(HostValue::NaiveDateTime(secs)),
                    Err(message) => Err(
                        ConversionError::Parse { format: ParsedFormat::NaiveDateTime, message },
                    ),
                },
            },
            _ => mismatch_of(Expected::String, v),
        },
    }
}

/// Whether a host value of model `m` has host type `t` and is one that a
/// dynamic value can carry back unchanged: integers, floats, strings,
/// booleans, identifiers, enum values, custom scalars, lists of such values,
/// and optionals whose inner type is not itself optional.
pub open spec fn encodable(m: HostModel, t: HostType) -> bool
    decreases t,
{
    match t {
        HostType::Int => m is Int,
        HostType::Float => m is Float,
        HostType::String => m is String,
        HostType::Boolean => m is Boolean,
        HostType::Id => m is Id,
        HostType::Enum => m is Enum,
        HostType::Custom => m is Custom,
        HostType::List(inner) => match m {
            HostModel::List(xs) => forall|i: int| 0 <= i < xs.len() ==> encodable(#[trigger] xs[i], *inner),
            _ => false,
        },
        HostType::Optional(inner) => match m {
            HostModel::Optional(None) => true,
            HostModel::Optional(Some(b)) => !(*inner is Optional) && encodable(*b, *inner),
            _ => false,
        },
        _ => false,
    }
}

proof fn lemma_encodable_item(xs: Seq<HostModel>, inner: HostType, i: int)
    requires
        encodable(HostModel::List(xs), HostType::List(Box::new(inner))),
        0 <= i < xs.len(),
    ensures
        encodable(xs[i], inner),
{
    reveal_with_fuel(encodable, 2);
    let m = HostModel::List(xs);
    let t = HostType::List(Box::new(inner));
    assert(m is List);
    assert(m->List_0 == xs);
}

proof fn lemma_items_prefix(vals: Seq<LookAheadValue>, x: LookAheadValue, t: HostType, n: nat)
    requires
        n <= vals.len(),
    ensures
        spec_convert_items(vals.push(x), t, n) == spec_convert_items(vals, t, n),
    decreases n,
{
    if n > 0 {
        lemma_items_prefix(vals, x, t, (n - 1) as nat);
        assert(vals.push(x)[n - 1] == vals[n - 1]);
    }
}

/// Encodes a typed value as the dynamic value that converts back into it:
/// converting the result into `t` gives exactly `h` again.
pub fn encode(h: &HostValue, t: &HostType) -> (r: LookAheadValue)
    requires
        encodable(h.model(), *t),
    ensures
        spec_convert(r, *t) == Ok::<HostModel, ErrorModel>(h.model()),
    decreases t,
{
    match t {
        HostType::List(inner) => match h {
            HostValue::List(items) => {
                let mut out: Vec<LookAheadValue> = Vec::new();
                let mut i: usize = 0;
                while i < items.len()
                    invariant
                        *h == HostValue::List(*items),
                        *t == HostType::List(*inner),
                        encodable(h.model(), *t),
                        i <= items@.len(),
                        out@.len() == i,
                        spec_convert_items(out@, **inner, i as nat) == Ok::<
                            Seq<HostModel>,
                            ErrorModel,
                        >(models_of(items@, i as nat)),
                    decreases items@.len() - i,
                {
                    proof {
                        lemma_models_of_index(items@, items@.len(), i as int);
                        let xs = models_of(items@, items@.len());
                        assert(h.model() == HostModel::List(xs));
                        lemma_encodable_item(xs, **inner, i as int);
                    }
                    let x = encode(&items[i], inner);
                    proof {
                        lemma_items_prefix(out@, x, **inner, i as nat);
                        assert(out@.push(x)[i as int] == x);
                    }
                    out.push(x);
                    i = i + 1;
                }
                LookAheadValue::List(out)
            },
            _ => LookAheadValue::Null,
        },
        HostType::Optional(inner) => match h {
            HostValue::Optional(Some(b)) => encode(b, inner),
            _ => LookAheadValue::Null,
        },
        _ => match h {
            HostValue::Int(x) => LookAheadValue::Scalar(DefaultScalarValue::Int(*x)),
            HostValue::Float(x) => LookAheadValue::Scalar(DefaultScalarValue::Float(*x)),
            HostValue::Boolean(b) => LookAheadValue::Scalar(DefaultScalarValue::Boolean(*b)),
            HostValue::String(s) => LookAheadValue::Scalar(DefaultScalarValue::String(s.clone())),
            HostValue::Id(s) => LookAheadValue::Scalar(DefaultScalarValue::String(s.clone())),
            HostValue::Custom(s) => LookAheadValue::Scalar(DefaultScalarValue::String(s.clone())),
            HostValue::Enum(s) => LookAheadValue::Enum(s.clone()),
            _ => LookAheadValue::Null,
        },
    }
}

proof fn lemma_models_of_index(items: Seq<HostValue>, n: nat, i: int)
    requires
        0 <= i < n <= items.len(),
    ensures
        models_of(items, n).len() == n,
        models_of(items, n)[i] == items[i].model(),
    decreases n,
{
    lemma_models_of_len(items, n);
    if i < n - 1 {
        lemma_models_of_index(items, (n - 1) as nat, i);
    }
}

proof fn lemma_models_of_len(items: Seq<HostValue>, n: nat)
    requires
        n <= items.len(),
    ensures
        models_of(items, n).len() == n,
    decreases n,
{
    if n > 0 {
        lemma_models_of_len(items, (n - 1) as nat);
    }
}

fn copy_value(v: &HostValue) -> (r: HostValue)
    ensures
        r.model() == v.model(),
    decreases v,
{
    match v {
        HostValue::Int(x) => HostValue::Int(*x),
        HostValue::Float(x) => HostValue::Float(*x),
        HostValue::String(s) => HostValue::String(s.clone()),
        HostValue::Boolean(b) => HostValue::Boolean(*b),
        HostValue::Id(s) => HostValue::Id(s.clone()),
        HostValue::Url(s) => HostValue::Url(s.clone()),
        HostValue::Uuid(x) => HostValue::Uuid(*x),
        HostValue::Date(d) => HostValue::Date(*d),
        HostValue::DateTime(secs, nanos) => HostValue::DateTime(*secs, *nanos),
        HostValue::NaiveDateTime(secs) => HostValue::NaiveDateTime(*secs),
        HostValue::Enum(s) => HostValue::Enum(s.clone()),
        HostValue::Custom(s) => HostValue::Custom(s.clone()),
        HostValue::Optional(None) => HostValue::Optional(None),
        HostValue::Optional(Some(b)) => HostValue::Optional(Some(Box::new(copy_value(b)))),
        HostValue::List(items) => {
            let mut out: Vec<HostValue> = Vec::new();
            let mut i: usize = 0;
            while i < items.len()
                invariant
                    *v == HostValue::List(*items),
                    i <= items@.len(),
                    out@.len() == i,
                    models_of(out@, i as nat) == models_of(items@, i as nat),
                decreases items@.len() - i,
            {
                proof {
                    assert(*v is List);
                    assert((*v)->List_0 == *items);
                    assert(decreases_to!(*v => *items));
                    assert(decreases_to!(*items => items[i as int]));
                }
                let x = copy_value(&items[i]);
                proof {
                    lemma_models_of_prefix(out@, x, i as nat);
                    assert(out@.push(x)[i as int] == x);
                }
                out.push(x);
                i = i + 1;
            }
            HostValue::List(out)
        },
    }
}
impl HostValue {
    /// A value with the same model.
    pub fn copied(&self) -> (r: HostValue)
        ensures
            r.model() == self.model(),
    {
        copy_value(self)
    }
}

impl ConversionError {
    /// An error with the same model.
    pub fn copied(&self) -> (r: ConversionError)
        ensures
            r.model() == self.model(),
    {
        match self {
            ConversionError::Mismatch { expected, got } => ConversionError::Mismatch {
                expected: *expected,
                got: *got,
            },
            ConversionError::Parse { format, message } => ConversionError::Parse {
                format: *format,
                message: message.clone(),
            },
        }
    }
}

} // verus!
