//! The outline of an element tree as lines of text: which lines a printout
//! shows and what stands in each, without colours and without printing.

use crate::analyzer::{ElementInfo, ElementView, Property, PropertyView};
use crate::text::{decimal, u64_to_string};
use vstd::prelude::*;
use vstd::string::StringExecFns;

verus! {

/// How many properties of an element are shown one by one.
pub const MAX_PROPERTIES: usize = 12;

/// How many colours the names of elements cycle through, by depth.
pub const PALETTE_SIZE: u8 = 10;

/// One line of the outline.
#[derive(Debug)]
pub enum TreeLine {
    /// The name of an element after the marker of its place among its
    /// siblings; `palette` says which colour of the cycle its depth has.
    Element { prefix: String, last: bool, name: String, palette: u8 },
    /// The offset or the size of an element.
    Field { prefix: String, label: String, value: String },
    /// A property with its readable value.
    Property { prefix: String, name: String, value: String },
    /// The number of properties that are not shown.
    More { prefix: String, count: usize },
}

/// Mathematical value of a [`TreeLine`].
pub enum TreeLineView {
    Element { prefix: Seq<char>, last: bool, name: Seq<char>, palette: u8 },
    Field { prefix: Seq<char>, label: Seq<char>, value: Seq<char> },
    Property { prefix: Seq<char>, name: Seq<char>, value: Seq<char> },
    More { prefix: Seq<char>, count: usize },
}

impl View for TreeLine {
    type V = TreeLineView;

    open spec fn view(&self) -> TreeLineView {
        match self {
            TreeLine::Element { prefix, last, name, palette } => TreeLineView::Element {
                prefix: prefix@,
                last: *last,
                name: name@,
                palette: *palette,
            },
            TreeLine::Field { prefix, label, value } => TreeLineView::Field {
                prefix: prefix@,
                label: label@,
                value: value@,
            },
            TreeLine::Property { prefix, name, value } => TreeLineView::Property {
                prefix: prefix@,
                name: name@,
                value: value@,
            },
            TreeLine::More { prefix, count } => TreeLineView::More { prefix: prefix@, count: *count },
        }
    }
}

/// The views of a list of lines.
pub open spec fn line_views(lines: Seq<TreeLine>) -> Seq<TreeLineView> {
    Seq::new(lines.len(), |i: int| lines[i]@)
}

impl TreeLineView {
    /// The text of the line.
    pub open spec fn text(self) -> Seq<char> {
        match self {
            TreeLineView::Element { prefix, last, name, palette } => prefix + marker(last) + name,
            TreeLineView::Field { prefix, label, value } => prefix + label + ": "@ + value,
            TreeLineView::Property { prefix, name, value } => prefix + name + ":  "@ + value,
            TreeLineView::More { prefix, count } => prefix + "...:  "@ + decimal(count as nat) + " more"@,
        }
    }
}

/// The marker before the name of an element: one for the last of its
/// siblings, another for the others.
pub open spec fn marker(last: bool) -> Seq<char> {
    if last {
        "`---"@
    } else {
        "!---"@
    }
}

/// The prefix of the lines under an element's name.
pub open spec fn detail_prefix(prefix: Seq<char>) -> Seq<char> {
    prefix + "        "@
}

/// The prefix of the lines of an element's children: room under the last of
/// its siblings, a rule under the others.
pub open spec fn child_prefix(prefix: Seq<char>, last: bool) -> Seq<char> {
    if last {
        prefix + "    "@
    } else {
        prefix + "!   "@
    }
}

/// The lines of the first `count` properties.
pub open spec fn property_lines(properties: Seq<PropertyView>, prefix: Seq<char>, count: nat) -> Seq<
    TreeLineView,
> {
    Seq::new(
        count,
        |i: int|
            TreeLineView::Property { prefix, name: properties[i].name, value: properties[i].readable_value },
    )
}

/// The line for the properties beyond the twelve that are shown, where
/// there are any.
pub open spec fn more_line(len: nat, prefix: Seq<char>) -> Seq<TreeLineView> {
    if len > MAX_PROPERTIES {
        seq![TreeLineView::More { prefix, count: (len - MAX_PROPERTIES) as usize }]
    } else {
        Seq::empty()
    }
}

/// How many of `len` properties are shown one by one.
pub open spec fn shown_properties(len: nat) -> nat {
    if len > MAX_PROPERTIES {
        MAX_PROPERTIES as nat
    } else {
        len
    }
}

/// The lines of an element and of everything under it: its name, its
/// offset and size, its first twelve properties and a line for the rest,
/// then the lines of its children one level deeper.
pub open spec fn element_lines(e: ElementView, prefix: Seq<char>, last: bool, depth: nat) -> Seq<TreeLineView>
    decreases e, 0nat,
{
    seq![
        TreeLineView::Element { prefix, last, name: e.name, palette: (depth % (PALETTE_SIZE as nat)) as u8 },
        TreeLineView::Field { prefix: detail_prefix(prefix), label: "offset"@, value: e.offset },
        TreeLineView::Field { prefix: detail_prefix(prefix), label: "size"@, value: e.size },
    ] + property_lines(e.properties, detail_prefix(prefix), shown_properties(e.properties.len())) + more_line(
        e.properties.len(),
        detail_prefix(prefix),
    ) + lines_upto(e.children, e.children.len(), child_prefix(prefix, last), depth + 1)
}

/// The lines of the first `count` elements of `items`.
pub open spec fn lines_upto(items: Seq<ElementView>, count: nat, prefix: Seq<char>, depth: nat) -> Seq<
    TreeLineView,
>
    decreases items, count,
{
    if count == 0 || count > items.len() {
        Seq::empty()
    } else {
        lines_upto(items, (count - 1) as nat, prefix, depth) + element_lines(
            items[count - 1],
            prefix,
            count == items.len(),
            depth,
        )
    }
}

/// The lines of an outline of `items` at depth `depth`, every line behind
/// `prefix`.
pub open spec fn outline(items: Seq<ElementView>, prefix: Seq<char>, depth: nat) -> Seq<TreeLineView> {
    lines_upto(items, items.len(), prefix, depth)
}

/// The lines of the outline of `items`, every line behind `prefix`.  The
/// depth of the items matters only modulo the number of colours: `depth`
/// may be any number with the same remainder.
#[verifier::rlimit(40)]
pub fn tree_lines(items: &[ElementInfo], prefix: &str, depth: u8) -> (lines: Vec<TreeLine>)
    ensures
        forall|d: nat|
            d % (PALETTE_SIZE as nat) == depth % PALETTE_SIZE ==> line_views(lines@) == #[trigger] outline(
                crate::analyzer::element_views(items@),
                prefix@,
                d,
            ),
    decreases items@,
{
    let palette: u8 = depth % PALETTE_SIZE;
    let ghost views = crate::analyzer::element_views(items@);
    let mut lines: Vec<TreeLine> = Vec::new();
    let mut i: usize = 0;
    assert(line_views(lines@) =~= Seq::empty());
    while i < items.len()
        invariant
            i <= items.len(),
            palette < PALETTE_SIZE,
            views == crate::analyzer::element_views(items@),
            forall|depth: nat|
                depth % (PALETTE_SIZE as nat) == palette ==> line_views(lines@) == #[trigger] lines_upto(
                    views,
                    i as nat,
                    prefix@,
                    depth,
                ),
        decreases items.len() - i,
    {
        let item = &items[i];
        let last = i == items.len() - 1;
        let ghost before = line_views(lines@);
        let mut detail = String::from_str(prefix);
        detail.append("        ");
        let mut under = String::from_str(prefix);
        if last {
            under.append("    ");
        } else {
            under.append("!   ");
        }
        lines.push(
            TreeLine::Element { prefix: String::from_str(prefix), last, name: item.name.clone(), palette },
        );
        lines.push(
            TreeLine::Field {
                prefix: detail.clone(),
                label: String::from_str("offset"),
                value: item.offset.clone(),
            },
        );
        lines.push(
            TreeLine::Field { prefix: detail.clone(), label: String::from_str("size"), value: item.size.clone() },
        );
        let ghost head = line_views(lines@);
        let shown: usize = if item.properties.len() > MAX_PROPERTIES {
            MAX_PROPERTIES
        } else {
            item.properties.len()
        };
        let mut k: usize = 0;
        while k < shown
            invariant
                k <= shown <= item.properties.len(),
                line_views(lines@) =~= head + property_lines(item@.properties, detail@, k as nat),
            decreases shown - k,
        {
            let ghost so_far = line_views(lines@);
            let property = &item.properties[k];
            lines.push(
                TreeLine::Property {
                    prefix: detail.clone(),
                    name: property.name.clone(),
                    value: property.readable_value.clone(),
                },
            );
            proof {
                assert(item@.properties[k as int] == property@);
                assert(line_views(lines@) =~= so_far.push(
                    TreeLineView::Property { prefix: detail@, name: property@.name, value: property@.readable_value },
                ));
            }
            k = k + 1;
        }
        if item.properties.len() > MAX_PROPERTIES {
            let ghost so_far = line_views(lines@);
            lines.push(TreeLine::More { prefix: detail.clone(), count: item.properties.len() - MAX_PROPERTIES });
            proof {
                assert(line_views(lines@) =~= so_far + more_line(item@.properties.len(), detail@));
            }
        }
        let ghost own = line_views(lines@);
        let next: u8 = if palette + 1 == PALETTE_SIZE { 0 } else { palette + 1 };
        let mut below = tree_lines(item.children.as_slice(), under.as_str(), next);
        let ghost below_views = line_views(below@);
        lines.append(&mut below);
        i = i + 1;
        proof {
            assert(line_views(lines@) =~= own + below_views);
            assert(views[i - 1] == item@);
            assert(crate::analyzer::element_views(item.children@) =~= item@.children);
            assert forall|depth: nat| depth % (PALETTE_SIZE as nat) == palette implies line_views(lines@)
                == #[trigger] lines_upto(views, i as nat, prefix@, depth) by {
                assert((depth + 1) % (PALETTE_SIZE as nat) == next);
                assert(before == lines_upto(views, (i - 1) as nat, prefix@, depth));
                assert(lines_upto(views, i as nat, prefix@, depth) == lines_upto(
                    views,
                    (i - 1) as nat,
                    prefix@,
                    depth,
                ) + element_lines(views[i - 1], prefix@, last, depth));
                assert(below_views == outline(item@.children, under@, depth + 1));
                assert(own =~= before + (seq![
                    TreeLineView::Element { prefix: prefix@, last, name: item@.name, palette },
                    TreeLineView::Field { prefix: detail@, label: "offset"@, value: item@.offset },
                    TreeLineView::Field { prefix: detail@, label: "size"@, value: item@.size },
                ] + property_lines(item@.properties, detail@, shown_properties(item@.properties.len()))
                    + more_line(item@.properties.len(), detail@)));
                assert(line_views(lines@) =~= before + element_lines(item@, prefix@, last, depth));
            }
        }
    }
    lines
}

impl TreeLine {
    /// The text of the line.
    pub fn to_text(&self) -> (s: String)
        ensures
            s@ == self@.text(),
    {
        match self {
            TreeLine::Element { prefix, last, name, palette } => {
                let mut s = prefix.clone();
                if *last {
                    s.append("`---");
                } else {
                    s.append("!---");
                }
                s.append(name.as_str());
                s
            },
            TreeLine::Field { prefix, label, value } => {
                let mut s = prefix.clone();
                s.append(label.as_str());
                s.append(": ");
                s.append(value.as_str());
                s
            },
            TreeLine::Property { prefix, name, value } => {
                let mut s = prefix.clone();
                s.append(name.as_str());
                s.append(":  ");
                s.append(value.as_str());
                s
            },
            TreeLine::More { prefix, count } => {
                let mut s = prefix.clone();
                s.append("...:  ");
                s.append(u64_to_string(*count as u64).as_str());
                s.append(" more");
                s
            },
        }
    }
}

} // verus!
