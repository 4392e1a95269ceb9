//! The element tree that both parsers' records are presented as, and the
//! analyzer that picks a parser for a stream.

pub mod detector;
pub mod isobmff;
pub mod navigation;
pub mod rmff;

use crate::analyzer::detector::{detected, DetectionStrategy, FileFormat, FormatDetector, text_view};
use crate::analyzer::isobmff::box_parser::boxes_in;
use crate::analyzer::isobmff::IsobmffAnalyzer;
use crate::analyzer::rmff::chunk_parser::stream_at;
use crate::analyzer::rmff::RmffAnalyzer;
use crate::error::{MediaError, MediaErrorView};
use crate::text::{concat3, decimal, prefixed_hex, prefixed_hex_string, u64_to_string};
use vstd::arithmetic::mul::{lemma_mul_basics, lemma_mul_is_distributive_add_other_way};
use vstd::prelude::*;
use vstd::string::StringExecFns;

verus! {

/// One decoded field of a record: its name, its value, and the value in a
/// form meant for people.
#[derive(Debug, Clone)]
pub struct Property {
    pub name: String,
    pub value: String,
    pub readable_value: String,
}

/// Mathematical value of a [`Property`].
pub struct PropertyView {
    pub name: Seq<char>,
    pub value: Seq<char>,
    pub readable_value: Seq<char>,
}

impl View for Property {
    type V = PropertyView;

    open spec fn view(&self) -> PropertyView {
        PropertyView { name: self.name@, value: self.value@, readable_value: self.readable_value@ }
    }
}

/// The property whose readable value is the value itself.
pub open spec fn plain(name: Seq<char>, value: Seq<char>) -> PropertyView {
    PropertyView { name, value, readable_value: value }
}

/// The property with a readable value of its own.
pub open spec fn shown(name: Seq<char>, value: Seq<char>, readable_value: Seq<char>) -> PropertyView {
    PropertyView { name, value, readable_value }
}

/// The views of a list of properties.
pub open spec fn property_views(items: Seq<Property>) -> Seq<PropertyView> {
    Seq::new(items.len(), |i: int| items[i]@)
}

impl Property {
    /// A property; without a readable value, the value stands for it.
    pub fn new(name: &str, value: String, readable_value: Option<String>) -> (p: Property)
        ensures
            p@ == (PropertyView {
                name: name@,
                value: value@,
                readable_value: match readable_value {
                    Some(r) => r@,
                    None => value@,
                },
            }),
    {
        let readable: String = match readable_value {
            Some(r) => r,
            None => value.clone(),
        };
        Property { name: String::from_str(name), value, readable_value: readable }
    }
}

/// Appends the property `name` = `value` to `properties`.
pub fn push_plain(properties: &mut Vec<Property>, name: &str, value: String)
    ensures
        property_views(final(properties)@) == property_views(old(properties)@).push(plain(name@, value@)),
{
    let p = Property::new(name, value, None);
    properties.push(p);
    assert(property_views(properties@) =~= property_views(old(properties)@).push(plain(name@, value@)));
}

/// Appends the property `name` = `value`, shown as `readable_value`.
pub fn push_shown(properties: &mut Vec<Property>, name: &str, value: String, readable_value: String)
    ensures
        property_views(final(properties)@) == property_views(old(properties)@).push(
            shown(name@, value@, readable_value@),
        ),
{
    let p = Property::new(name, value, Some(readable_value));
    properties.push(p);
    assert(property_views(properties@) =~= property_views(old(properties)@).push(
        shown(name@, value@, readable_value@),
    ));
}

/// Text of the flags of a record: six hexadecimal digits after `0x`.
pub open spec fn flags_text(flags: u32) -> Seq<char> {
    prefixed_hex("0x"@, flags as nat, 6)
}

/// The flags of a record as text.
pub fn flags_string(flags: u32) -> (s: String)
    ensures
        s@ == flags_text(flags),
{
    prefixed_hex_string("0x", flags as u64, 6)
}

/// A name with a number inside: `before`, the decimal digits of `index`, `after`.
pub open spec fn indexed(before: Seq<char>, index: nat, after: Seq<char>) -> Seq<char> {
    before + decimal(index) + after
}

/// A name with a number inside.
pub fn indexed_string(before: &str, index: usize, after: &str) -> (s: String)
    ensures
        s@ == indexed(before@, index as nat, after@),
{
    let digits = u64_to_string(index as u64);
    concat3(before, digits.as_str(), after)
}

/// The properties of the first `count` entries of a list, `each` giving those
/// of the entry at an index.
pub open spec fn listed(count: nat, each: spec_fn(int) -> Seq<PropertyView>) -> Seq<PropertyView>
    decreases count,
{
    if count == 0 {
        Seq::empty()
    } else {
        listed((count - 1) as nat, each) + each(count - 1)
    }
}

/// Where every entry has `each_len` properties, the first `count` entries
/// have `count` times as many.
pub proof fn listed_len(count: nat, each: spec_fn(int) -> Seq<PropertyView>, each_len: nat)
    requires
        forall|i: int| 0 <= i < count ==> (#[trigger] each(i)).len() == each_len,
    ensures
        listed(count, each).len() == count * each_len,
    decreases count,
{
    lemma_mul_basics(each_len as int);
    if count > 0 {
        listed_len((count - 1) as nat, each, each_len);
        lemma_mul_is_distributive_add_other_way(each_len as int, count - 1, 1);
        assert(listed(count, each).len() == listed((count - 1) as nat, each).len() + each(count - 1).len());
        assert((count - 1) * each_len + each_len == count * each_len);
    }
}

/// How many properties a list of `len` entries has where each entry shown
/// has `each_len`: those of the first five entries, and one more for the rest
/// where there are more than five.
pub open spec fn capped_len(len: nat, each_len: nat) -> nat {
    if len > 5 {
        5 * each_len + 1
    } else {
        len * each_len
    }
}

/// How many entries of a list of `len` are shown one by one.
pub open spec fn shown_count(len: nat) -> nat {
    if len > 5 {
        5
    } else {
        len
    }
}

/// The property that stands for the entries not shown, where there are any.
pub open spec fn remainder(len: nat, unit: Seq<char>) -> Seq<PropertyView> {
    if len > 5 {
        seq![plain("..."@, decimal((len - 5) as nat) + unit)]
    } else {
        Seq::empty()
    }
}

/// Appends the property for the entries of a list of `len` that were not
/// shown, where there are any.
pub fn push_remainder(properties: &mut Vec<Property>, len: usize, unit: &str)
    ensures
        property_views(final(properties)@) == property_views(old(properties)@) + remainder(len as nat, unit@),
{
    if len > 5 {
        let mut value = u64_to_string((len - 5) as u64);
        value.append(unit);
        push_plain(properties, "...", value);
        assert(property_views(properties@) =~= property_views(old(properties)@) + remainder(
            len as nat,
            unit@,
        ));
    } else {
        assert(property_views(properties@) =~= property_views(old(properties)@) + remainder(
            len as nat,
            unit@,
        ));
    }
}

/// The property of a number with its unit: the value is the number, the
/// readable value the number followed by `unit`.
pub open spec fn measured(name: Seq<char>, n: nat, unit: Seq<char>) -> PropertyView {
    shown(name, decimal(n), decimal(n) + unit)
}

/// Appends the property of a number with its unit.
pub fn push_measured(properties: &mut Vec<Property>, name: &str, n: u64, unit: &str)
    ensures
        property_views(final(properties)@) == property_views(old(properties)@).push(
            measured(name@, n as nat, unit@),
        ),
{
    let mut text = u64_to_string(n);
    text.append(unit);
    push_shown(properties, name, u64_to_string(n), text);
}

/// The property of a number that names something: the value is the number,
/// the readable value `label` followed by the number.
pub open spec fn labelled(name: Seq<char>, label: Seq<char>, n: nat) -> PropertyView {
    shown(name, decimal(n), label + decimal(n))
}

/// Appends the property of a number that names something.
pub fn push_labelled(properties: &mut Vec<Property>, name: &str, label: &str, n: u64)
    ensures
        property_views(final(properties)@) == property_views(old(properties)@).push(
            labelled(name@, label@, n as nat),
        ),
{
    let mut text = String::from_str(label);
    text.append(u64_to_string(n).as_str());
    push_shown(properties, name, u64_to_string(n), text);
}

/// A node of the element tree: a record's name, where it lies, what it is,
/// its fields and its children.
pub struct ElementInfo {
    pub name: String,
    pub offset: String,
    pub size: String,
    pub readable_value: String,
    pub children: Vec<ElementInfo>,
    pub properties: Vec<Property>,
}

/// Mathematical value of an [`ElementInfo`].
pub struct ElementView {
    pub name: Seq<char>,
    pub offset: Seq<char>,
    pub size: Seq<char>,
    pub readable_value: Seq<char>,
    pub children: Seq<ElementView>,
    pub properties: Seq<PropertyView>,
}

/// The views of a list of elements.
pub open spec fn element_views(items: Seq<ElementInfo>) -> Seq<ElementView> {
    Seq::new(items.len(), |i: int| items[i]@)
}

impl ElementInfo {
    /// The mathematical value of the record and of everything under it.
    pub open spec fn view(&self) -> ElementView
        decreases self,
    {
        ElementView {
            name: self.name@,
            offset: self.offset@,
            size: self.size@,
            readable_value: self.readable_value@,
            children: Seq::new(
                self.children@.len(),
                |i: int|
                    if 0 <= i < self.children.len() {
                        self.children[i].view()
                    } else {
                        arbitrary()
                    },
            ),
            properties: property_views(self.properties@),
        }
    }

    /// An element without description, properties or children.  Offset and
    /// size are kept as decimal text.
    pub fn new(name: &str, offset: u64, size: u64) -> (e: ElementInfo)
        ensures
            e@ == (ElementView {
                name: name@,
                offset: decimal(offset as nat),
                size: decimal(size as nat),
                readable_value: Seq::empty(),
                children: Seq::empty(),
                properties: Seq::empty(),
            }),
    {
        let e = ElementInfo {
            name: String::from_str(name),
            offset: u64_to_string(offset),
            size: u64_to_string(size),
            readable_value: String::new(),
            children: Vec::new(),
            properties: Vec::new(),
        };
        assert(e@.children =~= Seq::empty());
        assert(e@.properties =~= Seq::empty());
        e
    }

    /// Appends a property.
    pub fn add_property(&mut self, name: &str, value: String, readable_value: String)
        ensures
            final(self)@ == (ElementView {
                properties: old(self)@.properties.push(shown(name@, value@, readable_value@)),
                ..old(self)@
            }),
    {
        push_shown(&mut self.properties, name, value, readable_value);
        assert(self@.children =~= old(self)@.children);
    }

    /// Appends a child.
    pub fn add_child(&mut self, child: ElementInfo)
        ensures
            final(self)@ == (ElementView { children: old(self)@.children.push(child@), ..old(self)@ }),
    {
        self.children.push(child);
        assert(self@.children =~= old(self)@.children.push(child@));
    }
}

impl Clone for ElementInfo {
    /// A copy of the element and of everything under it.
    fn clone(&self) -> (copy: ElementInfo)
        ensures
            copy@ == self@,
        decreases self,
    {
        let mut children: Vec<ElementInfo> = Vec::new();
        let mut i: usize = 0;
        while i < self.children.len()
            invariant
                i <= self.children.len(),
                children@.len() == i,
                forall|j: int| 0 <= j < i ==> children@[j]@ == self.children@[j]@,
            decreases self.children.len() - i,
        {
            children.push(self.children[i].clone());
            i = i + 1;
        }
        let mut properties: Vec<Property> = Vec::new();
        let mut k: usize = 0;
        while k < self.properties.len()
            invariant
                k <= self.properties.len(),
                properties@.len() == k,
                forall|j: int| 0 <= j < k ==> properties@[j]@ == self.properties@[j]@,
            decreases self.properties.len() - k,
        {
            let p = &self.properties[k];
            properties.push(
                Property {
                    name: p.name.clone(),
                    value: p.value.clone(),
                    readable_value: p.readable_value.clone(),
                },
            );
            k = k + 1;
        }
        let copy = ElementInfo {
            name: self.name.clone(),
            offset: self.offset.clone(),
            size: self.size.clone(),
            readable_value: self.readable_value.clone(),
            children,
            properties,
        };
        proof {
            assert(copy@.children =~= self@.children);
            assert(copy@.properties =~= self@.properties);
        }
        copy
    }
}

/// Sound stream of a file, as far as it is known.
#[derive(Debug, Clone)]
pub struct AudioStream {
    pub codec: String,
    pub channels: u8,
    pub sample_rate: u32,
    pub bit_rate: Option<u64>,
}

/// What an analysis found: the container family and the element tree.
pub struct MediaInfo {
    pub format: String,
    pub audio_streams: Vec<AudioStream>,
    pub metadata: Vec<(String, String)>,
    pub structure: Vec<ElementInfo>,
}

/// What an analysis of `data` finds with `strategy`: the name of the family
/// and the elements of its records, or the error of detection or of the chunk
/// stream.  A box stream never fails.
pub open spec fn analysis(strategy: DetectionStrategy, extension: Option<Seq<char>>, data: Seq<u8>) -> Result<
    (Seq<char>, Seq<ElementView>),
    MediaErrorView,
> {
    match detected(strategy, extension, data) {
        Err(e) => Err(e),
        Ok(FileFormat::RealMedia) => match stream_at(data, 0) {
            Ok(chunks) => Ok(("RealMedia"@, rmff::elements_of(chunks))),
            Err(e) => Err(e),
        },
        Ok(FileFormat::Isobmff) => Ok(("ISOBMFF"@, isobmff::elements_of(boxes_in(data, 0, u64::MAX as int)))),
    }
}

/// An analysis fails only where the format is not supported or, for a chunk
/// stream, where its marker or version is wrong: whatever else is amiss in a
/// file shortens the tree and is no failure.
pub proof fn analysis_fails_only_on_format(strategy: DetectionStrategy, extension: Option<Seq<char>>, data: Seq<u8>)
    ensures
        analysis(strategy, extension, data) matches Err(e) ==> e is UnsupportedFormat || e is InvalidFormat,
{
}

/// Something that analyzes the content of a file.
pub trait MediaAnalyzer {
    /// Analyzes `data`, the content of a file whose name has the extension
    /// given, if it has one.
    fn analyze(&self, extension: Option<&str>, data: Vec<u8>) -> Result<MediaInfo, MediaError>;
}

/// The analyzer that detects the family of a file and decodes it with the
/// parser of that family.
pub struct DefaultAnalyzer {
    debug: bool,
    detector: FormatDetector,
}

impl DefaultAnalyzer {
    /// Whether diagnostics are asked for.
    pub closed spec fn debug(&self) -> bool {
        self.debug
    }

    /// The strategy of detection.
    pub closed spec fn strategy(&self) -> DetectionStrategy {
        self.detector.strategy()
    }

    /// An analyzer that detects by extension first, then by content.
    pub fn new(debug: bool) -> (a: DefaultAnalyzer)
        ensures
            a.debug() == debug,
            a.strategy() == DetectionStrategy::Auto,
    {
        DefaultAnalyzer { debug, detector: FormatDetector::new(DetectionStrategy::Auto) }
    }

    /// An analyzer that detects with the strategy given.
    pub fn with_strategy(debug: bool, strategy: DetectionStrategy) -> (a: DefaultAnalyzer)
        ensures
            a.debug() == debug,
            a.strategy() == strategy,
    {
        DefaultAnalyzer { debug, detector: FormatDetector::new(strategy) }
    }
}

impl MediaAnalyzer for DefaultAnalyzer {
    fn analyze(&self, extension: Option<&str>, data: Vec<u8>) -> (r: Result<MediaInfo, MediaError>)
        ensures
            match r {
                Ok(info) => analysis(self.strategy(), text_view(extension), data@) == Ok::<
                    (Seq<char>, Seq<ElementView>),
                    MediaErrorView,
                >((info.format@, element_views(info.structure@))) && info.audio_streams@.len() == 0
                    && info.metadata@.len() == 0,
                Err(e) => analysis(self.strategy(), text_view(extension), data@) == Err::<
                    (Seq<char>, Seq<ElementView>),
                    MediaErrorView,
                >(e@),
            },
    {
        let format = self.detector.detect_format(extension, data.as_slice())?;
        match format {
            FileFormat::RealMedia => {
                let mut analyzer = RmffAnalyzer::new(data)?;
                analyzer.set_debug(self.debug);
                analyzer.analyze()
            },
            FileFormat::Isobmff => {
                let mut analyzer = IsobmffAnalyzer::new(data)?;
                analyzer.set_debug(self.debug);
                analyzer.analyze()
            },
        }
    }
}

} // verus!
