use vstd::prelude::*;

use crate::cache::{cache_after, AttributeValue, ValueCache};
use crate::error::{deep_outcome, outcome, AttributeError, ErrorView};
use crate::property::{
    decode_i32, decoded_i32, fetched_by, optional_i32_or, optional_in, optional_usize_or,
    lookup, property_path, read_i32_or, read_property_with, read_usize_or, required_outcome, try_read_attribute_property, write_property_with,
    written_by, EntryDir,
};
use crate::text::{
    decimal_string, decimal_text, free_of, join_list, join_on, split_list, split_on,
};

verus! {

/// Delimiter of `possible_values`, `elements` and an ordered list's value.
pub const POSSIBLE_VALUES_DELIMITER: char = ';';

/// Delimiter of an enumeration list's value.
pub const ENUMERATION_VALUES_DELIMITER: char = ':';

/// The metadata that every attribute has, and a cache of its current value.
#[derive(Debug)]
pub struct CommonAttribute<T = String> {
    pub path: String,
    pub name: String,
    pub default_value: Option<T>,
    pub display_name: Option<String>,
    pub display_name_language_code: Option<String>,
    pub current_value_cache: ValueCache<T>,
}

/// The mathematical model of a [`CommonAttribute`]; `cache` is the value last
/// read from or written to storage, if it is still held.
pub struct CommonView<V> {
    pub path: Seq<char>,
    pub name: Seq<char>,
    pub default_value: Option<V>,
    pub display_name: Option<Seq<char>>,
    pub display_name_language_code: Option<Seq<char>>,
    pub cache: Option<V>,
}

impl<V> CommonView<V> {
    pub open spec fn with_cache(self, cache: Option<V>) -> CommonView<V> {
        CommonView { cache, ..self }
    }
}

impl<T: AttributeValue> View for CommonAttribute<T> {
    type V = CommonView<T::V>;

    open spec fn view(&self) -> CommonView<T::V> {
        CommonView {
            path: self.path@,
            name: self.name@,
            default_value: self.default_value.deep_view(),
            display_name: self.display_name.deep_view(),
            display_name_language_code: self.display_name_language_code.deep_view(),
            cache: self.current_value_cache@,
        }
    }
}

/// The common part of the attribute in `dir`, given how its default value read:
/// then `display_name` and `display_name_language_code`, both optional. The
/// first failure is the result; the cache starts empty.
pub open spec fn assemble_common<V>(dir: EntryDir, default: Result<Option<V>, ErrorView>) -> Result<
    CommonView<V>,
    ErrorView,
> {
    match default {
        Err(e) => Err(e),
        Ok(default_value) => match optional_in(dir, "display_name"@) {
            Err(e) => Err(e),
            Ok(display_name) => match optional_in(dir, "display_name_language_code"@) {
                Err(e) => Err(e),
                Ok(display_name_language_code) => Ok(
                    CommonView {
                        path: dir.path@,
                        name: dir.name@,
                        default_value,
                        display_name,
                        display_name_language_code,
                        cache: None,
                    },
                ),
            },
        },
    }
}

/// A text read, split on `d`.
pub open spec fn as_list(r: Result<Seq<char>, ErrorView>, d: char) -> Result<
    Seq<Seq<char>>,
    ErrorView,
> {
    match r {
        Ok(t) => Ok(split_on(t, d)),
        Err(e) => Err(e),
    }
}

/// A text read, as an `i32`.
pub open spec fn as_i32(r: Result<Seq<char>, ErrorView>) -> Result<i32, ErrorView> {
    match r {
        Ok(t) => decoded_i32(t),
        Err(e) => Err(e),
    }
}

/// An optional text read, split on `d` when present.
pub open spec fn as_optional_list(r: Result<Option<Seq<char>>, ErrorView>, d: char) -> Result<
    Option<Seq<Seq<char>>>,
    ErrorView,
> {
    match r {
        Ok(Some(t)) => Ok(Some(split_on(t, d))),
        Ok(None) => Ok(None),
        Err(e) => Err(e),
    }
}

/// An optional text read, as an `i32` when present.
pub open spec fn as_optional_i32(r: Result<Option<Seq<char>>, ErrorView>) -> Result<
    Option<i32>,
    ErrorView,
> {
    match r {
        Ok(Some(t)) => match decoded_i32(t) {
            Ok(v) => Ok(Some(v)),
            Err(e) => Err(e),
        },
        Ok(None) => Ok(None),
        Err(e) => Err(e),
    }
}

/// The candidates in an optional list property: its pieces, or none when absent.
pub open spec fn list_or_empty(t: Option<Seq<char>>) -> Seq<Seq<char>> {
    match t {
        Some(t) => split_on(t, POSSIBLE_VALUES_DELIMITER),
        None => Seq::empty(),
    }
}

/// What a read of the current value returns: the cached value while there is
/// one; else `fetched`, the value read from storage.
pub open spec fn read_result<V>(cache: Option<V>, fetched: Result<V, ErrorView>) -> Result<
    V,
    ErrorView,
> {
    match cache {
        Some(v) => Ok(v),
        None => fetched,
    }
}

impl<T> CommonAttribute<T> {
    /// The label to show: the display name, or the name when there is none.
    pub fn display_name(&self) -> (r: &String)
        ensures
            r == (match self.display_name {
                Some(d) => d,
                None => self.name,
            }),
    {
        match &self.display_name {
            Some(d) => d,
            None => &self.name,
        }
    }
}

impl<T: AttributeValue> CommonAttribute<T> {
    /// The common part of the attribute in `dir`, whose default value read as
    /// `default_value`.
    fn assemble(dir: &EntryDir, default_value: Option<T>) -> (r: Result<Self, AttributeError>)
        ensures
            outcome(r) == assemble_common(*dir, Ok(default_value.deep_view())),
    {
        let display_name = try_read_attribute_property(dir, "display_name")?;
        let display_name_language_code = try_read_attribute_property(
            dir,
            "display_name_language_code",
        )?;
        let r = CommonAttribute {
            path: dir.path.clone(),
            name: dir.name.clone(),
            default_value,
            display_name,
            display_name_language_code,
            current_value_cache: ValueCache::new(),
        };
        assert(r@ == assemble_common(*dir, Ok(default_value.deep_view()))->Ok_0);
        Ok(r)
    }

    /// A copy of the cached current value, if there is one.
    pub fn cached_current_value(&self) -> (r: Option<T>)
        ensures
            r.deep_view() == self@.cache,
    {
        self.current_value_cache.cached()
    }

    /// Caches the current value that a read gave; after a failure nothing is cached.
    pub fn cache_current_value(&mut self, r: &Result<T, AttributeError>)
        ensures
            final(self)@ == old(self)@.with_cache(cache_after(deep_outcome(*r))),
    {
        self.current_value_cache.remember(r);
        assert(self@ =~= old(self)@.with_cache(cache_after(deep_outcome(*r))));
    }

    /// Forgets the cached current value, so that the next read goes to storage.
    pub fn clear_current_value_cache(&mut self)
        ensures
            final(self)@ == old(self)@.with_cache(None),
    {
        self.current_value_cache.invalidate();
        assert(self@ =~= old(self)@.with_cache(None));
    }
}

/// `got` is the current value of the attribute at `dir`, read through `read` and
/// split on `d`.
pub open spec fn read_as_list<F: FnOnce(String) -> Option<Result<String, String>>>(
    read: F,
    dir: Seq<char>,
    d: char,
    got: Result<Seq<Seq<char>>, ErrorView>,
) -> bool {
    exists|t: Result<Seq<char>, ErrorView>|
        fetched_by(read, property_path(dir, "current_value"@), t) && got == as_list(t, d)
}

/// An attribute whose value is a list of candidates, any number of them, in order.
#[derive(Debug)]
pub struct EnumerationListAttribute {
    pub common_attribute: CommonAttribute<Vec<String>>,
    pub possible_values: Vec<String>,
}

/// The mathematical model of an [`EnumerationListAttribute`].
pub struct EnumerationListView {
    pub common: CommonView<Seq<Seq<char>>>,
    pub possible_values: Seq<Seq<char>>,
}

impl View for EnumerationListAttribute {
    type V = EnumerationListView;

    open spec fn view(&self) -> EnumerationListView {
        EnumerationListView {
            common: self.common_attribute@,
            possible_values: self.possible_values.deep_view(),
        }
    }
}

/// Reading an enumeration list from its directory: the default value splits on
/// `:`, the candidates of `possible_values` on `;`.
pub open spec fn load_enumeration_list(dir: EntryDir) -> Result<EnumerationListView, ErrorView> {
    match assemble_common(
        dir,
        as_optional_list(optional_in(dir, "default_value"@), ENUMERATION_VALUES_DELIMITER),
    ) {
        Err(e) => Err(e),
        Ok(common) => match optional_in(dir, "possible_values"@) {
            Err(e) => Err(e),
            Ok(pv) => Ok(EnumerationListView { common, possible_values: list_or_empty(pv) }),
        },
    }
}

impl EnumerationListAttribute {
    /// Reads the enumeration list that `dir` describes; it is built whole or not at all.
    pub fn load(dir: &EntryDir) -> (r: Result<Self, AttributeError>)
        ensures
            outcome(r) == load_enumeration_list(*dir),
    {
        let default_value = match try_read_attribute_property(dir, "default_value")? {
            Some(t) => Some(split_list(t.as_str(), ENUMERATION_VALUES_DELIMITER)),
            None => None,
        };
        let common_attribute = CommonAttribute::assemble(dir, default_value)?;
        let possible_values = match try_read_attribute_property(dir, "possible_values")? {
            Some(t) => split_list(t.as_str(), POSSIBLE_VALUES_DELIMITER),
            None => Vec::new(),
        };
        let r = EnumerationListAttribute { common_attribute, possible_values };
        assert(r.possible_values.deep_view() =~= list_or_empty(
            optional_in(*dir, "possible_values"@)->Ok_0,
        ));
        Ok(r)
    }

    /// The current value: the cached one, or else `current_value` read through
    /// `read` and split on `:`, which is then cached.
    pub fn current_value<F: FnOnce(String) -> Option<Result<String, String>>>(
        &mut self,
        read: F,
    ) -> (r: Result<Vec<String>, AttributeError>)
        requires
            forall|p: String| call_requires(read, (p,)),
        ensures
            old(self)@.common.cache is Some ==> deep_outcome(r) == Ok::<
                Seq<Seq<char>>,
                ErrorView,
            >(old(self)@.common.cache->0) && final(self)@ == old(self)@,
            old(self)@.common.cache is None ==> read_as_list(
                read,
                old(self)@.common.path,
                ENUMERATION_VALUES_DELIMITER,
                deep_outcome(r),
            ) && final(self)@ == (EnumerationListView {
                    common: old(self)@.common.with_cache(cache_after(deep_outcome(r))),
                    ..old(self)@
                }),
    {
        if let Some(v) = self.common_attribute.cached_current_value() {
            return Ok(v);
        }
        let t = read_property_with(self.common_attribute.path.as_str(), "current_value", read);
        let ghost got = outcome(t);
        let r = match t {
            Ok(t) => Ok(split_list(t.as_str(), ENUMERATION_VALUES_DELIMITER)),
            Err(e) => Err(e),
        };
        assert(deep_outcome(r) == as_list(got, ENUMERATION_VALUES_DELIMITER));
        self.common_attribute.cache_current_value(&r);
        r
    }

    /// Writes `value` joined with `:` as the current value through `write`; the
    /// cache is emptied whatever the outcome.
    pub fn write_current_value<W: FnOnce(String, String) -> Option<Result<(), String>>>(
        &mut self,
        value: &Vec<String>,
        write: W,
    ) -> (r: Result<(), AttributeError>)
        requires
            forall|p: String, v: String| call_requires(write, (p, v)),
        ensures
            written_by(
                write,
                property_path(old(self)@.common.path, "current_value"@),
                join_on(value.deep_view(), ENUMERATION_VALUES_DELIMITER),
                outcome(r),
            ),
            final(self)@ == (EnumerationListView {
                common: old(self)@.common.with_cache(None),
                ..old(self)@
            }),
    {
        let text = join_list(value, ENUMERATION_VALUES_DELIMITER);
        let r = write_property_with(
            self.common_attribute.path.as_str(),
            "current_value",
            text,
            write,
        );
        self.common_attribute.clear_current_value_cache();
        r
    }
}

/// `got` is the current value of the attribute at `dir`, read through `read` as text.
pub open spec fn read_as_text<F: FnOnce(String) -> Option<Result<String, String>>>(
    read: F,
    dir: Seq<char>,
    got: Result<Seq<char>, ErrorView>,
) -> bool {
    fetched_by(read, property_path(dir, "current_value"@), got)
}

/// `got` is the current value of the attribute at `dir`, read through `read` as
/// an `i32`.
pub open spec fn read_as_i32<F: FnOnce(String) -> Option<Result<String, String>>>(
    read: F,
    dir: Seq<char>,
    got: Result<i32, ErrorView>,
) -> bool {
    exists|t: Result<Seq<char>, ErrorView>|
        fetched_by(read, property_path(dir, "current_value"@), t) && got == as_i32(t)
}

/// An attribute whose value is one of a set of candidates.
#[derive(Debug)]
pub struct EnumerationAttribute {
    pub common_attribute: CommonAttribute,
    pub possible_values: Vec<String>,
}

/// The mathematical model of an [`EnumerationAttribute`].
pub struct EnumerationView {
    pub common: CommonView<Seq<char>>,
    pub possible_values: Seq<Seq<char>>,
}

impl View for EnumerationAttribute {
    type V = EnumerationView;

    open spec fn view(&self) -> EnumerationView {
        EnumerationView {
            common: self.common_attribute@,
            possible_values: self.possible_values.deep_view(),
        }
    }
}

/// Reading an enumeration from its directory: the candidates of
/// `possible_values` split on `;`.
pub open spec fn load_enumeration(dir: EntryDir) -> Result<EnumerationView, ErrorView> {
    match assemble_common(dir, optional_in(dir, "default_value"@)) {
        Err(e) => Err(e),
        Ok(common) => match optional_in(dir, "possible_values"@) {
            Err(e) => Err(e),
            Ok(pv) => Ok(EnumerationView { common, possible_values: list_or_empty(pv) }),
        },
    }
}

impl EnumerationAttribute {
    /// Reads the enumeration that `dir` describes; it is built whole or not at all.
    pub fn load(dir: &EntryDir) -> (r: Result<Self, AttributeError>)
        ensures
            outcome(r) == load_enumeration(*dir),
    {
        let default_value = try_read_attribute_property(dir, "default_value")?;
        let common_attribute = CommonAttribute::assemble(dir, default_value)?;
        let possible_values = match try_read_attribute_property(dir, "possible_values")? {
            Some(t) => split_list(t.as_str(), POSSIBLE_VALUES_DELIMITER),
            None => Vec::new(),
        };
        let r = EnumerationAttribute { common_attribute, possible_values };
        assert(r.possible_values.deep_view() =~= list_or_empty(
            optional_in(*dir, "possible_values"@)->Ok_0,
        ));
        Ok(r)
    }

    /// The current value: the cached one, or else `current_value` read through
    /// `read`, which is then cached.
    pub fn current_value<F: FnOnce(String) -> Option<Result<String, String>>>(
        &mut self,
        read: F,
    ) -> (r: Result<String, AttributeError>)
        requires
            forall|p: String| call_requires(read, (p,)),
        ensures
            old(self)@.common.cache is Some ==> outcome(r) == Ok::<Seq<char>, ErrorView>(
                old(self)@.common.cache->0,
            ) && final(self)@ == old(self)@,
            old(self)@.common.cache is None ==> read_as_text(
                read,
                old(self)@.common.path,
                outcome(r),
            ) && final(self)@ == (EnumerationView {
                common: old(self)@.common.with_cache(cache_after(outcome(r))),
                ..old(self)@
            }),
    {
        if let Some(v) = self.common_attribute.cached_current_value() {
            return Ok(v);
        }
        let r = read_property_with(self.common_attribute.path.as_str(), "current_value", read);
        self.common_attribute.cache_current_value(&r);
        r
    }

    /// Writes `value` as the current value through `write`; the cache is emptied
    /// whatever the outcome.
    pub fn write_current_value<W: FnOnce(String, String) -> Option<Result<(), String>>>(
        &mut self,
        value: &String,
        write: W,
    ) -> (r: Result<(), AttributeError>)
        requires
            forall|p: String, v: String| call_requires(write, (p, v)),
        ensures
            written_by(
                write,
                property_path(old(self)@.common.path, "current_value"@),
                value@,
                outcome(r),
            ),
            final(self)@ == (EnumerationView {
                common: old(self)@.common.with_cache(None),
                ..old(self)@
            }),
    {
        let r = write_property_with(
            self.common_attribute.path.as_str(),
            "current_value",
            value.clone(),
            write,
        );
        self.common_attribute.clear_current_value_cache();
        r
    }
}

/// An attribute whose value is an ordering of candidate items.
#[derive(Debug)]
pub struct OrderedListAttribute {
    pub common_attribute: CommonAttribute<Vec<String>>,
    pub elements: Vec<String>,
}

/// The mathematical model of an [`OrderedListAttribute`].
pub struct OrderedListView {
    pub common: CommonView<Seq<Seq<char>>>,
    pub elements: Seq<Seq<char>>,
}

impl View for OrderedListAttribute {
    type V = OrderedListView;

    open spec fn view(&self) -> OrderedListView {
        OrderedListView { common: self.common_attribute@, elements: self.elements.deep_view() }
    }
}

/// Reading an ordered list from its directory: the default value splits on `;`;
/// the candidates come from `elements`, or failing that `possible_values`, split
/// on `;`. Both properties are read.
pub open spec fn load_ordered_list(dir: EntryDir) -> Result<OrderedListView, ErrorView> {
    match assemble_common(
        dir,
        as_optional_list(optional_in(dir, "default_value"@), POSSIBLE_VALUES_DELIMITER),
    ) {
        Err(e) => Err(e),
        Ok(common) => match optional_in(dir, "elements"@) {
            Err(e) => Err(e),
            Ok(el) => match optional_in(dir, "possible_values"@) {
                Err(e) => Err(e),
                Ok(pv) => Ok(
                    OrderedListView {
                        common,
                        elements: list_or_empty(
                            if el is Some {
                                el
                            } else {
                                pv
                            },
                        ),
                    },
                ),
            },
        },
    }
}

impl OrderedListAttribute {
    /// Reads the ordered list that `dir` describes; it is built whole or not at all.
    pub fn load(dir: &EntryDir) -> (r: Result<Self, AttributeError>)
        ensures
            outcome(r) == load_ordered_list(*dir),
    {
        let default_value = match try_read_attribute_property(dir, "default_value")? {
            Some(t) => Some(split_list(t.as_str(), POSSIBLE_VALUES_DELIMITER)),
            None => None,
        };
        let common_attribute = CommonAttribute::assemble(dir, default_value)?;
        let from_elements = try_read_attribute_property(dir, "elements")?;
        let from_possible_values = try_read_attribute_property(dir, "possible_values")?;
        let source = match from_elements {
            Some(t) => Some(t),
            None => from_possible_values,
        };
        let elements = match source {
            Some(t) => split_list(t.as_str(), POSSIBLE_VALUES_DELIMITER),
            None => Vec::new(),
        };
        let r = OrderedListAttribute { common_attribute, elements };
        assert(r.elements.deep_view() =~= list_or_empty(
            if optional_in(*dir, "elements"@)->Ok_0 is Some {
                optional_in(*dir, "elements"@)->Ok_0
            } else {
                optional_in(*dir, "possible_values"@)->Ok_0
            },
        ));
        Ok(r)
    }

    /// The current value: the cached one, or else `current_value` read through
    /// `read` and split on `;`, which is then cached.
    pub fn current_value<F: FnOnce(String) -> Option<Result<String, String>>>(
        &mut self,
        read: F,
    ) -> (r: Result<Vec<String>, AttributeError>)
        requires
            forall|p: String| call_requires(read, (p,)),
        ensures
            old(self)@.common.cache is Some ==> deep_outcome(r) == Ok::<
                Seq<Seq<char>>,
                ErrorView,
            >(old(self)@.common.cache->0) && final(self)@ == old(self)@,
            old(self)@.common.cache is None ==> read_as_list(
                read,
                old(self)@.common.path,
                POSSIBLE_VALUES_DELIMITER,
                deep_outcome(r),
            ) && final(self)@ == (OrderedListView {
                common: old(self)@.common.with_cache(cache_after(deep_outcome(r))),
                ..old(self)@
            }),
    {
        if let Some(v) = self.common_attribute.cached_current_value() {
            return Ok(v);
        }
        let t = read_property_with(self.common_attribute.path.as_str(), "current_value", read);
        let ghost got = outcome(t);
        let r = match t {
            Ok(t) => Ok(split_list(t.as_str(), POSSIBLE_VALUES_DELIMITER)),
            Err(e) => Err(e),
        };
        assert(deep_outcome(r) == as_list(got, POSSIBLE_VALUES_DELIMITER));
        self.common_attribute.cache_current_value(&r);
        r
    }

    /// Writes `value` joined with `;` as the current value through `write`; the
    /// cache is emptied whatever the outcome.
    pub fn write_current_value<W: FnOnce(String, String) -> Option<Result<(), String>>>(
        &mut self,
        value: &Vec<String>,
        write: W,
    ) -> (r: Result<(), AttributeError>)
        requires
            forall|p: String, v: String| call_requires(write, (p, v)),
        ensures
            written_by(
                write,
                property_path(old(self)@.common.path, "current_value"@),
                join_on(value.deep_view(), POSSIBLE_VALUES_DELIMITER),
                outcome(r),
            ),
            final(self)@ == (OrderedListView {
                common: old(self)@.common.with_cache(None),
                ..old(self)@
            }),
    {
        let text = join_list(value, POSSIBLE_VALUES_DELIMITER);
        let r = write_property_with(
            self.common_attribute.path.as_str(),
            "current_value",
            text,
            write,
        );
        self.common_attribute.clear_current_value_cache();
        r
    }
}

pub const DEFAULT_INTEGER_MIN_VALUE: i32 = 0;

pub const DEFAULT_INTEGER_MAX_VALUE: i32 = 2147483647;

pub const DEFAULT_INTEGER_SCALAR_INCREMENT: i32 = 1;

/// An attribute whose value is a 32-bit signed integer.
#[derive(Debug)]
pub struct IntegerAttribute {
    pub common_attribute: CommonAttribute<i32>,
    pub min_value: i32,
    pub max_value: i32,
    pub scalar_increment: i32,
}

/// The mathematical model of an [`IntegerAttribute`].
pub struct IntegerView {
    pub common: CommonView<i32>,
    pub min_value: i32,
    pub max_value: i32,
    pub scalar_increment: i32,
}

impl View for IntegerAttribute {
    type V = IntegerView;

    open spec fn view(&self) -> IntegerView {
        IntegerView {
            common: self.common_attribute@,
            min_value: self.min_value,
            max_value: self.max_value,
            scalar_increment: self.scalar_increment,
        }
    }
}

/// Reading an integer attribute from its directory: the default value is an
/// integer; `min_value`, `max_value` and `scalar_increment` default to 0,
/// `i32::MAX` and 1.
pub open spec fn load_integer(dir: EntryDir) -> Result<IntegerView, ErrorView> {
    match assemble_common(dir, as_optional_i32(optional_in(dir, "default_value"@))) {
        Err(e) => Err(e),
        Ok(common) => match optional_i32_or(dir, "min_value"@, DEFAULT_INTEGER_MIN_VALUE) {
            Err(e) => Err(e),
            Ok(min_value) => match optional_i32_or(dir, "max_value"@, DEFAULT_INTEGER_MAX_VALUE) {
                Err(e) => Err(e),
                Ok(max_value) => match optional_i32_or(
                    dir,
                    "scalar_increment"@,
                    DEFAULT_INTEGER_SCALAR_INCREMENT,
                ) {
                    Err(e) => Err(e),
                    Ok(scalar_increment) => Ok(
                        IntegerView { common, min_value, max_value, scalar_increment },
                    ),
                },
            },
        },
    }
}

impl IntegerAttribute {
    /// Reads the integer attribute that `dir` describes; it is built whole or not at all.
    pub fn load(dir: &EntryDir) -> (r: Result<Self, AttributeError>)
        ensures
            outcome(r) == load_integer(*dir),
    {
        let default_value = match try_read_attribute_property(dir, "default_value")? {
            Some(t) => Some(decode_i32(t)?),
            None => None,
        };
        let common_attribute = CommonAttribute::assemble(dir, default_value)?;
        let min_value = read_i32_or(dir, "min_value", DEFAULT_INTEGER_MIN_VALUE)?;
        let max_value = read_i32_or(dir, "max_value", DEFAULT_INTEGER_MAX_VALUE)?;
        let scalar_increment = read_i32_or(
            dir,
            "scalar_increment",
            DEFAULT_INTEGER_SCALAR_INCREMENT,
        )?;
        Ok(IntegerAttribute { common_attribute, min_value, max_value, scalar_increment })
    }

    /// The current value: the cached one, or else `current_value` read through
    /// `read` as an integer, which is then cached.
    pub fn current_value<F: FnOnce(String) -> Option<Result<String, String>>>(
        &mut self,
        read: F,
    ) -> (r: Result<i32, AttributeError>)
        requires
            forall|p: String| call_requires(read, (p,)),
        ensures
            old(self)@.common.cache is Some ==> outcome(r) == Ok::<i32, ErrorView>(
                old(self)@.common.cache->0,
            ) && final(self)@ == old(self)@,
            old(self)@.common.cache is None ==> read_as_i32(
                read,
                old(self)@.common.path,
                outcome(r),
            ) && final(self)@ == (IntegerView {
                common: old(self)@.common.with_cache(cache_after(outcome(r))),
                ..old(self)@
            }),
    {
        if let Some(v) = self.common_attribute.cached_current_value() {
            return Ok(v);
        }
        let t = read_property_with(self.common_attribute.path.as_str(), "current_value", read);
        let ghost got = outcome(t);
        let r = match t {
            Ok(t) => decode_i32(t),
            Err(e) => Err(e),
        };
        assert(outcome(r) == as_i32(got));
        self.common_attribute.cache_current_value(&r);
        r
    }

    /// Writes `value` in decimal as the current value through `write`; the cache
    /// is emptied whatever the outcome. No range is enforced here.
    pub fn write_current_value<W: FnOnce(String, String) -> Option<Result<(), String>>>(
        &mut self,
        value: &i32,
        write: W,
    ) -> (r: Result<(), AttributeError>)
        requires
            forall|p: String, v: String| call_requires(write, (p, v)),
        ensures
            written_by(
                write,
                property_path(old(self)@.common.path, "current_value"@),
                decimal_text(*value as int),
                outcome(r),
            ),
            final(self)@ == (IntegerView {
                common: old(self)@.common.with_cache(None),
                ..old(self)@
            }),
    {
        let r = write_property_with(
            self.common_attribute.path.as_str(),
            "current_value",
            decimal_string(*value),
            write,
        );
        self.common_attribute.clear_current_value_cache();
        r
    }
}

pub const DEFAULT_MIN_STRING_LENGTH: usize = 0;

pub const DEFAULT_MAX_STRING_LENGTH: usize = 128;

/// An attribute whose value is free text.
#[derive(Debug)]
pub struct StringAttribute {
    pub common_attribute: CommonAttribute,
    pub max_length: usize,
    pub min_length: usize,
    pub hint: Option<String>,
}

/// The mathematical model of a [`StringAttribute`].
pub struct StringView {
    pub common: CommonView<Seq<char>>,
    pub max_length: usize,
    pub min_length: usize,
    pub hint: Option<Seq<char>>,
}

impl View for StringAttribute {
    type V = StringView;

    open spec fn view(&self) -> StringView {
        StringView {
            common: self.common_attribute@,
            max_length: self.max_length,
            min_length: self.min_length,
            hint: self.hint.deep_view(),
        }
    }
}

/// Reading a string attribute from its directory: `min_length` and `max_length`
/// default to 0 and 128; the hint is the text of `possible_values`, whole.
pub open spec fn load_string(dir: EntryDir) -> Result<StringView, ErrorView> {
    match assemble_common(dir, optional_in(dir, "default_value"@)) {
        Err(e) => Err(e),
        Ok(common) => match optional_usize_or(dir, "min_length"@, DEFAULT_MIN_STRING_LENGTH) {
            Err(e) => Err(e),
            Ok(min_length) => match optional_usize_or(
                dir,
                "max_length"@,
                DEFAULT_MAX_STRING_LENGTH,
            ) {
                Err(e) => Err(e),
                Ok(max_length) => match optional_in(dir, "possible_values"@) {
                    Err(e) => Err(e),
                    Ok(hint) => Ok(StringView { common, max_length, min_length, hint }),
                },
            },
        },
    }
}

impl StringAttribute {
    /// Reads the string attribute that `dir` describes; it is built whole or not at all.
    pub fn load(dir: &EntryDir) -> (r: Result<Self, AttributeError>)
        ensures
            outcome(r) == load_string(*dir),
    {
        let default_value = try_read_attribute_property(dir, "default_value")?;
        let common_attribute = CommonAttribute::assemble(dir, default_value)?;
        let min_length = read_usize_or(dir, "min_length", DEFAULT_MIN_STRING_LENGTH)?;
        let max_length = read_usize_or(dir, "max_length", DEFAULT_MAX_STRING_LENGTH)?;
        let hint = try_read_attribute_property(dir, "possible_values")?;
        Ok(StringAttribute { common_attribute, max_length, min_length, hint })
    }

    /// The current value: the cached one, or else `current_value` read through
    /// `read`, which is then cached.
    pub fn current_value<F: FnOnce(String) -> Option<Result<String, String>>>(
        &mut self,
        read: F,
    ) -> (r: Result<String, AttributeError>)
        requires
            forall|p: String| call_requires(read, (p,)),
        ensures
            old(self)@.common.cache is Some ==> outcome(r) == Ok::<Seq<char>, ErrorView>(
                old(self)@.common.cache->0,
            ) && final(self)@ == old(self)@,
            old(self)@.common.cache is None ==> read_as_text(
                read,
                old(self)@.common.path,
                outcome(r),
            ) && final(self)@ == (StringView {
                common: old(self)@.common.with_cache(cache_after(outcome(r))),
                ..old(self)@
            }),
    {
        if let Some(v) = self.common_attribute.cached_current_value() {
            return Ok(v);
        }
        let r = read_property_with(self.common_attribute.path.as_str(), "current_value", read);
        self.common_attribute.cache_current_value(&r);
        r
    }

    /// Writes `value` as the current value through `write`; the cache is emptied
    /// whatever the outcome. No length is enforced here.
    pub fn write_current_value<W: FnOnce(String, String) -> Option<Result<(), String>>>(
        &mut self,
        value: &String,
        write: W,
    ) -> (r: Result<(), AttributeError>)
        requires
            forall|p: String, v: String| call_requires(write, (p, v)),
        ensures
            written_by(
                write,
                property_path(old(self)@.common.path, "current_value"@),
                value@,
                outcome(r),
            ),
            final(self)@ == (StringView { common: old(self)@.common.with_cache(None), ..old(self)@ }),
    {
        let r = write_property_with(
            self.common_attribute.path.as_str(),
            "current_value",
            value.clone(),
            write,
        );
        self.common_attribute.clear_current_value_cache();
        r
    }
}

proof fn lemma_join_plain(v: Seq<Seq<char>>, d: char, c: char)
    requires
        c != d,
        free_of(v, c),
    ensures
        !join_on(v, d).contains(c),
    decreases v.len(),
{
    if v.len() == 1 {
        assert(!v[0].contains(c));
    } else if v.len() >= 2 {
        let w = v.drop_last();
        assert forall|i: int| 0 <= i < w.len() implies !(#[trigger] w[i]).contains(c) by {
            assert(w[i] == v[i]);
        }
        lemma_join_plain(w, d, c);
        let j = join_on(w, d).push(d) + v.last();
        assert(!v.last().contains(c)) by {
            assert(v[v.len() - 1] == v.last());
        }
        if j.contains(c) {
            let k = choose|k: int| 0 <= k < j.len() && j[k] == c;
            if k < join_on(w, d).len() {
                assert(join_on(w, d)[k] == c);
            } else if k > join_on(w, d).len() {
                assert(v.last()[k - join_on(w, d).len() - 1] == c);
            }
        }
    }
}

/// A text value written to storage reads back unchanged, once the cache is
/// empty: what a write of an enumeration or string attribute hands to storage
/// is the value itself, and a read of what storage then holds gives the value,
/// when it has no line terminator.
pub proof fn lemma_text_round_trip(path: Seq<char>, v: Seq<char>)
    requires
        !v.contains('\n'),
    ensures
        required_outcome(path, Some(Ok(v))) == Ok::<Seq<char>, ErrorView>(v),
{
    if v.len() > 0 {
        assert(v[v.len() - 1] != '\n');
    }
}

/// An integer written to storage reads back unchanged: a write hands storage
/// its decimal form, and a read of that text gives the integer.
pub proof fn lemma_integer_round_trip(path: Seq<char>, v: i32)
    ensures
        as_i32(required_outcome(path, Some(Ok(decimal_text(v as int))))) == Ok::<i32, ErrorView>(
            v,
        ),
{
    crate::text::lemma_i32_round_trip(v);
    let t = decimal_text(v as int);
    if t.len() > 0 && t.last() == '\n' {
        crate::text::lemma_decimal_round_trip(v as int);
        if v < 0 {
            crate::text::lemma_digits_text((-v) as nat);
            assert(t.last() == crate::text::digits_text((-v) as nat).last());
        } else {
            crate::text::lemma_digits_text(v as nat);
        }
        assert(crate::text::is_digit(t.last()));
    }
}

/// A list written to storage reads back unchanged: a write hands storage the
/// pieces joined with the list's delimiter, and a read splits on the same one.
/// This holds for a list of one or more pieces, none holding the delimiter or a
/// line terminator (the empty list is written as the empty text, which reads
/// back as one empty piece).
pub proof fn lemma_list_round_trip(path: Seq<char>, v: Seq<Seq<char>>, d: char)
    requires
        d == POSSIBLE_VALUES_DELIMITER || d == ENUMERATION_VALUES_DELIMITER,
        v.len() >= 1,
        free_of(v, d),
        free_of(v, '\n'),
    ensures
        as_list(required_outcome(path, Some(Ok(join_on(v, d)))), d) == Ok::<
            Seq<Seq<char>>,
            ErrorView,
        >(v),
{
    lemma_join_plain(v, d, '\n');
    lemma_text_round_trip(path, join_on(v, d));
    crate::text::lemma_split_join(v, d);
}

/// After a write, the next read goes to storage: whatever the cache held
/// before, a write leaves it empty, and a read with an empty cache returns what
/// it fetched, not a value held from before.
pub proof fn lemma_read_after_write_fetches<V>(before: CommonView<V>, fetched: Result<V, ErrorView>)
    ensures
        before.with_cache(None).cache is None,
        read_result(before.with_cache(None).cache, fetched) == fetched,
{
}

/// An integer attribute without `min_value`, `max_value` and `scalar_increment`
/// reads them as 0, `i32::MAX` and 1.
pub proof fn lemma_integer_defaults(dir: EntryDir)
    requires
        lookup(dir.files@, "min_value"@) is None,
        lookup(dir.files@, "max_value"@) is None,
        lookup(dir.files@, "scalar_increment"@) is None,
    ensures
        load_integer(dir) is Ok <==> assemble_common(
            dir,
            as_optional_i32(optional_in(dir, "default_value"@)),
        ) is Ok,
        load_integer(dir) is Ok ==> load_integer(dir)->Ok_0.min_value == 0 && load_integer(
            dir,
        )->Ok_0.max_value == 2147483647 && load_integer(dir)->Ok_0.scalar_increment == 1,
{
}

/// A string attribute without `min_length` and `max_length` reads them as 0 and
/// 128.
pub proof fn lemma_string_defaults(dir: EntryDir)
    requires
        lookup(dir.files@, "min_length"@) is None,
        lookup(dir.files@, "max_length"@) is None,
    ensures
        load_string(dir) is Ok ==> load_string(dir)->Ok_0.min_length == 0 && load_string(
            dir,
        )->Ok_0.max_length == 128,
{
}

} // verus!
