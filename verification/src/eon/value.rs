//! Rust values that can stand as metric values, and the data types each
//! can be published as.

use crate::types::{DataType, MetaData, MetricValue};
use vstd::prelude::*;

verus! {

/// A Rust type whose values can be published as metric values.
pub trait MetricValueType: Sized {
    /// The data type a value is published as unless another is asked for.
    spec fn spec_default_datatype() -> DataType;

    /// The data types a value can be published as.
    spec fn spec_supports(d: DataType) -> bool;

    /// The metric value a value is published as.
    spec fn spec_value(self) -> MetricValue;

    fn default_datatype() -> (r: DataType)
        ensures
            r == Self::spec_default_datatype(),
            Self::spec_supports(r),
    ;

    fn supports_datatype(d: DataType) -> (r: bool)
        ensures
            r == Self::spec_supports(d),
    ;

    fn into_metric_value(self) -> (r: MetricValue)
        ensures
            r == self.spec_value(),
    ;

    /// The value a received metric value is read as, if it can stand for one.
    spec fn spec_from_value(v: MetricValue) -> Option<Self>;

    /// Reads a received metric value as a value of this type.
    fn from_metric_value(v: MetricValue) -> (r: Option<Self>)
        ensures
            r == Self::spec_from_value(v),
    ;

    /// A value published and read back is the value itself.
    proof fn lemma_round_trip(x: Self)
        ensures
            Self::spec_from_value(x.spec_value()) == Some(x),
    ;

    /// The metadata a value is published with.
    spec fn spec_publish_metadata(&self) -> Option<MetaData>;

    /// The metadata a value is published with; the types of this library
    /// publish none.
    fn publish_metadata(&self) -> (r: Option<MetaData>)
        ensures
            r == self.spec_publish_metadata(),
    ;
}

impl MetricValueType for bool {
    open spec fn spec_default_datatype() -> DataType {
        DataType::Boolean
    }

    open spec fn spec_supports(d: DataType) -> bool {
        d == DataType::Boolean
    }

    open spec fn spec_value(self) -> MetricValue {
        MetricValue::BooleanValue(self)
    }

    fn default_datatype() -> (r: DataType) {
        DataType::Boolean
    }

    fn supports_datatype(d: DataType) -> (r: bool) {
        d == DataType::Boolean
    }

    fn into_metric_value(self) -> (r: MetricValue) {
        MetricValue::BooleanValue(self)
    }

    open spec fn spec_from_value(v: MetricValue) -> Option<Self> {
        match v {
            MetricValue::BooleanValue(b) => Some(b),
            _ => None,
        }
    }

    fn from_metric_value(v: MetricValue) -> (r: Option<Self>) {
        match v {
            MetricValue::BooleanValue(b) => Some(b),
            _ => None,
        }
    }

    open spec fn spec_publish_metadata(&self) -> Option<MetaData> {
        None
    }

    fn publish_metadata(&self) -> (r: Option<MetaData>) {
        None
    }

    proof fn lemma_round_trip(x: Self) {
    }
}

impl MetricValueType for i8 {
    open spec fn spec_default_datatype() -> DataType {
        DataType::Int8
    }

    open spec fn spec_supports(d: DataType) -> bool {
        d == DataType::Int8
    }

    open spec fn spec_value(self) -> MetricValue {
        MetricValue::IntValue(self as i32 as u32)
    }

    fn default_datatype() -> (r: DataType) {
        DataType::Int8
    }

    fn supports_datatype(d: DataType) -> (r: bool) {
        d == DataType::Int8
    }

    fn into_metric_value(self) -> (r: MetricValue) {
        MetricValue::IntValue(#[verifier::truncate] (self as i32 as u32))
    }

    open spec fn spec_from_value(v: MetricValue) -> Option<Self> {
        match v {
            MetricValue::IntValue(u) => if -128 <= (u as i32) <= 127 {
                Some(u as i32 as i8)
            } else {
                None
            },
            _ => None,
        }
    }

    fn from_metric_value(v: MetricValue) -> (r: Option<Self>) {
        match v {
            MetricValue::IntValue(u) => {
                let s: i32 = #[verifier::truncate] (u as i32);
                if -128 <= s && s <= 127 {
                    Some(s as i8)
                } else {
                    None
                }
            },
            _ => None,
        }
    }

    open spec fn spec_publish_metadata(&self) -> Option<MetaData> {
        None
    }

    fn publish_metadata(&self) -> (r: Option<MetaData>) {
        None
    }

    proof fn lemma_round_trip(x: Self) {
        assert((((x as i32) as u32) as i32) == x as i32) by (bit_vector);
    }
}

impl MetricValueType for i16 {
    open spec fn spec_default_datatype() -> DataType {
        DataType::Int16
    }

    open spec fn spec_supports(d: DataType) -> bool {
        d == DataType::Int16
    }

    open spec fn spec_value(self) -> MetricValue {
        MetricValue::IntValue(self as i32 as u32)
    }

    fn default_datatype() -> (r: DataType) {
        DataType::Int16
    }

    fn supports_datatype(d: DataType) -> (r: bool) {
        d == DataType::Int16
    }

    fn into_metric_value(self) -> (r: MetricValue) {
        MetricValue::IntValue(#[verifier::truncate] (self as i32 as u32))
    }

    open spec fn spec_from_value(v: MetricValue) -> Option<Self> {
        match v {
            MetricValue::IntValue(u) => if -32768 <= (u as i32) <= 32767 {
                Some(u as i32 as i16)
            } else {
                None
            },
            _ => None,
        }
    }

    fn from_metric_value(v: MetricValue) -> (r: Option<Self>) {
        match v {
            MetricValue::IntValue(u) => {
                let s: i32 = #[verifier::truncate] (u as i32);
                if -32768 <= s && s <= 32767 {
                    Some(s as i16)
                } else {
                    None
                }
            },
            _ => None,
        }
    }

    open spec fn spec_publish_metadata(&self) -> Option<MetaData> {
        None
    }

    fn publish_metadata(&self) -> (r: Option<MetaData>) {
        None
    }

    proof fn lemma_round_trip(x: Self) {
        assert((((x as i32) as u32) as i32) == x as i32) by (bit_vector);
    }
}

impl MetricValueType for i32 {
    open spec fn spec_default_datatype() -> DataType {
        DataType::Int32
    }

    open spec fn spec_supports(d: DataType) -> bool {
        d == DataType::Int32
    }

    open spec fn spec_value(self) -> MetricValue {
        MetricValue::IntValue(self as u32)
    }

    fn default_datatype() -> (r: DataType) {
        DataType::Int32
    }

    fn supports_datatype(d: DataType) -> (r: bool) {
        d == DataType::Int32
    }

    fn into_metric_value(self) -> (r: MetricValue) {
        MetricValue::IntValue(#[verifier::truncate] (self as u32))
    }

    open spec fn spec_from_value(v: MetricValue) -> Option<Self> {
        match v {
            MetricValue::IntValue(u) => Some(u as i32),
            _ => None,
        }
    }

    fn from_metric_value(v: MetricValue) -> (r: Option<Self>) {
        match v {
            MetricValue::IntValue(u) => Some(#[verifier::truncate] (u as i32)),
            _ => None,
        }
    }

    open spec fn spec_publish_metadata(&self) -> Option<MetaData> {
        None
    }

    fn publish_metadata(&self) -> (r: Option<MetaData>) {
        None
    }

    proof fn lemma_round_trip(x: Self) {
        assert(((x as u32) as i32) == x) by (bit_vector);
    }
}

impl MetricValueType for i64 {
    open spec fn spec_default_datatype() -> DataType {
        DataType::Int64
    }

    open spec fn spec_supports(d: DataType) -> bool {
        d == DataType::Int64
    }

    open spec fn spec_value(self) -> MetricValue {
        MetricValue::LongValue(self as u64)
    }

    fn default_datatype() -> (r: DataType) {
        DataType::Int64
    }

    fn supports_datatype(d: DataType) -> (r: bool) {
        d == DataType::Int64
    }

    fn into_metric_value(self) -> (r: MetricValue) {
        MetricValue::LongValue(#[verifier::truncate] (self as u64))
    }

    open spec fn spec_from_value(v: MetricValue) -> Option<Self> {
        match v {
            MetricValue::LongValue(u) => Some(u as i64),
            _ => None,
        }
    }

    fn from_metric_value(v: MetricValue) -> (r: Option<Self>) {
        match v {
            MetricValue::LongValue(u) => Some(#[verifier::truncate] (u as i64)),
            _ => None,
        }
    }

    open spec fn spec_publish_metadata(&self) -> Option<MetaData> {
        None
    }

    fn publish_metadata(&self) -> (r: Option<MetaData>) {
        None
    }

    proof fn lemma_round_trip(x: Self) {
        assert(((x as u64) as i64) == x) by (bit_vector);
    }
}

impl MetricValueType for u8 {
    open spec fn spec_default_datatype() -> DataType {
        DataType::UInt8
    }

    open spec fn spec_supports(d: DataType) -> bool {
        d == DataType::UInt8
    }

    open spec fn spec_value(self) -> MetricValue {
        MetricValue::IntValue(self as u32)
    }

    fn default_datatype() -> (r: DataType) {
        DataType::UInt8
    }

    fn supports_datatype(d: DataType) -> (r: bool) {
        d == DataType::UInt8
    }

    fn into_metric_value(self) -> (r: MetricValue) {
        MetricValue::IntValue(self as u32)
    }

    open spec fn spec_from_value(v: MetricValue) -> Option<Self> {
        match v {
            MetricValue::IntValue(u) => if u <= 255 {
                Some(u as u8)
            } else {
                None
            },
            _ => None,
        }
    }

    fn from_metric_value(v: MetricValue) -> (r: Option<Self>) {
        match v {
            MetricValue::IntValue(u) => if u <= 255 {
                Some(u as u8)
            } else {
                None
            },
            _ => None,
        }
    }

    open spec fn spec_publish_metadata(&self) -> Option<MetaData> {
        None
    }

    fn publish_metadata(&self) -> (r: Option<MetaData>) {
        None
    }

    proof fn lemma_round_trip(x: Self) {
    }
}

impl MetricValueType for u16 {
    open spec fn spec_default_datatype() -> DataType {
        DataType::UInt16
    }

    open spec fn spec_supports(d: DataType) -> bool {
        d == DataType::UInt16
    }

    open spec fn spec_value(self) -> MetricValue {
        MetricValue::IntValue(self as u32)
    }

    fn default_datatype() -> (r: DataType) {
        DataType::UInt16
    }

    fn supports_datatype(d: DataType) -> (r: bool) {
        d == DataType::UInt16
    }

    fn into_metric_value(self) -> (r: MetricValue) {
        MetricValue::IntValue(self as u32)
    }

    open spec fn spec_from_value(v: MetricValue) -> Option<Self> {
        match v {
            MetricValue::IntValue(u) => if u <= 65535 {
                Some(u as u16)
            } else {
                None
            },
            _ => None,
        }
    }

    fn from_metric_value(v: MetricValue) -> (r: Option<Self>) {
        match v {
            MetricValue::IntValue(u) => if u <= 65535 {
                Some(u as u16)
            } else {
                None
            },
            _ => None,
        }
    }

    open spec fn spec_publish_metadata(&self) -> Option<MetaData> {
        None
    }

    fn publish_metadata(&self) -> (r: Option<MetaData>) {
        None
    }

    proof fn lemma_round_trip(x: Self) {
    }
}

impl MetricValueType for u32 {
    open spec fn spec_default_datatype() -> DataType {
        DataType::UInt32
    }

    open spec fn spec_supports(d: DataType) -> bool {
        d == DataType::UInt32
    }

    open spec fn spec_value(self) -> MetricValue {
        MetricValue::IntValue(self)
    }

    fn default_datatype() -> (r: DataType) {
        DataType::UInt32
    }

    fn supports_datatype(d: DataType) -> (r: bool) {
        d == DataType::UInt32
    }

    fn into_metric_value(self) -> (r: MetricValue) {
        MetricValue::IntValue(self)
    }

    open spec fn spec_from_value(v: MetricValue) -> Option<Self> {
        match v {
            MetricValue::IntValue(u) => Some(u),
            _ => None,
        }
    }

    fn from_metric_value(v: MetricValue) -> (r: Option<Self>) {
        match v {
            MetricValue::IntValue(u) => Some(u),
            _ => None,
        }
    }

    open spec fn spec_publish_metadata(&self) -> Option<MetaData> {
        None
    }

    fn publish_metadata(&self) -> (r: Option<MetaData>) {
        None
    }

    proof fn lemma_round_trip(x: Self) {
    }
}

impl MetricValueType for u64 {
    open spec fn spec_default_datatype() -> DataType {
        DataType::UInt64
    }

    open spec fn spec_supports(d: DataType) -> bool {
        d == DataType::UInt64 || d == DataType::DateTime
    }

    open spec fn spec_value(self) -> MetricValue {
        MetricValue::LongValue(self)
    }

    fn default_datatype() -> (r: DataType) {
        DataType::UInt64
    }

    fn supports_datatype(d: DataType) -> (r: bool) {
        d == DataType::UInt64 || d == DataType::DateTime
    }

    fn into_metric_value(self) -> (r: MetricValue) {
        MetricValue::LongValue(self)
    }

    open spec fn spec_from_value(v: MetricValue) -> Option<Self> {
        match v {
            MetricValue::LongValue(u) => Some(u),
            _ => None,
        }
    }

    fn from_metric_value(v: MetricValue) -> (r: Option<Self>) {
        match v {
            MetricValue::LongValue(u) => Some(u),
            _ => None,
        }
    }

    open spec fn spec_publish_metadata(&self) -> Option<MetaData> {
        None
    }

    fn publish_metadata(&self) -> (r: Option<MetaData>) {
        None
    }

    proof fn lemma_round_trip(x: Self) {
    }
}

impl MetricValueType for String {
    open spec fn spec_default_datatype() -> DataType {
        DataType::String
    }

    open spec fn spec_supports(d: DataType) -> bool {
        d == DataType::String || d == DataType::Text || d == DataType::Uuid
    }

    open spec fn spec_value(self) -> MetricValue {
        MetricValue::StringValue(self)
    }

    fn default_datatype() -> (r: DataType) {
        DataType::String
    }

    fn supports_datatype(d: DataType) -> (r: bool) {
        d == DataType::String || d == DataType::Text || d == DataType::Uuid
    }

    fn into_metric_value(self) -> (r: MetricValue) {
        MetricValue::StringValue(self)
    }

    open spec fn spec_from_value(v: MetricValue) -> Option<Self> {
        match v {
            MetricValue::StringValue(s) => Some(s),
            _ => None,
        }
    }

    fn from_metric_value(v: MetricValue) -> (r: Option<Self>) {
        match v {
            MetricValue::StringValue(s) => Some(s),
            _ => None,
        }
    }

    open spec fn spec_publish_metadata(&self) -> Option<MetaData> {
        None
    }

    fn publish_metadata(&self) -> (r: Option<MetaData>) {
        None
    }

    proof fn lemma_round_trip(x: Self) {
    }
}

} // verus!
