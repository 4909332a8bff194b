//! The element factory: from a tag name to an element with its kind's defaults.
use vstd::prelude::*;

verus! {

/// Heading rank of `h1` to `h6`.
#[derive(Clone, Copy, Debug, PartialEq, Eq, Structural)]
pub enum HeadingLevel {
    H1,
    H2,
    H3,
    H4,
    H5,
    H6,
}

/// The kind of an element node.
#[derive(Clone, Copy, Debug, PartialEq, Eq, Structural)]
pub enum ElementTypeId {
    Anchor,
    Applet,
    Area,
    BR,
    Body,
    Canvas,
    Div,
    DList,
    Font,
    Form,
    HR,
    Head,
    Html,
    Input,
    Link,
    ListItem,
    Meta,
    OList,
    OptionElement,
    Paragraph,
    Script,
    Select,
    Small,
    Source,
    Span,
    Style,
    TableCaption,
    TableCell,
    Table,
    TableSection,
    TextArea,
    Time,
    Title,
    TableRow,
    UList,
    Image,
    IFrame,
    Heading(HeadingLevel),
    /// A plain HTML element with no kind of its own (`aside`, `b`, `i`, `section`).
    Generic,
    /// A tag that the dispatch table does not know.
    Unknown,
}

/// The dispatch table: the element kind for each known tag name.
pub open spec fn tag_type(t: Seq<char>) -> ElementTypeId {
    if t == "a"@ {
        ElementTypeId::Anchor
    } else if t == "applet"@ {
        ElementTypeId::Applet
    } else if t == "area"@ {
        ElementTypeId::Area
    } else if t == "br"@ {
        ElementTypeId::BR
    } else if t == "body"@ {
        ElementTypeId::Body
    } else if t == "canvas"@ {
        ElementTypeId::Canvas
    } else if t == "div"@ {
        ElementTypeId::Div
    } else if t == "dl"@ {
        ElementTypeId::DList
    } else if t == "font"@ {
        ElementTypeId::Font
    } else if t == "form"@ {
        ElementTypeId::Form
    } else if t == "hr"@ {
        ElementTypeId::HR
    } else if t == "head"@ {
        ElementTypeId::Head
    } else if t == "html"@ {
        ElementTypeId::Html
    } else if t == "input"@ {
        ElementTypeId::Input
    } else if t == "link"@ {
        ElementTypeId::Link
    } else if t == "li"@ {
        ElementTypeId::ListItem
    } else if t == "meta"@ {
        ElementTypeId::Meta
    } else if t == "ol"@ {
        ElementTypeId::OList
    } else if t == "option"@ {
        ElementTypeId::OptionElement
    } else if t == "p"@ {
        ElementTypeId::Paragraph
    } else if t == "script"@ {
        ElementTypeId::Script
    } else if t == "select"@ {
        ElementTypeId::Select
    } else if t == "small"@ {
        ElementTypeId::Small
    } else if t == "source"@ {
        ElementTypeId::Source
    } else if t == "span"@ {
        ElementTypeId::Span
    } else if t == "style"@ {
        ElementTypeId::Style
    } else if t == "caption"@ {
        ElementTypeId::TableCaption
    } else if t == "td"@ {
        ElementTypeId::TableCell
    } else if t == "table"@ {
        ElementTypeId::Table
    } else if t == "tbody"@ {
        ElementTypeId::TableSection
    } else if t == "textarea"@ {
        ElementTypeId::TextArea
    } else if t == "time"@ {
        ElementTypeId::Time
    } else if t == "title"@ {
        ElementTypeId::Title
    } else if t == "tr"@ {
        ElementTypeId::TableRow
    } else if t == "ul"@ {
        ElementTypeId::UList
    } else if t == "img"@ {
        ElementTypeId::Image
    } else if t == "iframe"@ {
        ElementTypeId::IFrame
    } else if t == "h1"@ {
        ElementTypeId::Heading(HeadingLevel::H1)
    } else if t == "h2"@ {
        ElementTypeId::Heading(HeadingLevel::H2)
    } else if t == "h3"@ {
        ElementTypeId::Heading(HeadingLevel::H3)
    } else if t == "h4"@ {
        ElementTypeId::Heading(HeadingLevel::H4)
    } else if t == "h5"@ {
        ElementTypeId::Heading(HeadingLevel::H5)
    } else if t == "h6"@ {
        ElementTypeId::Heading(HeadingLevel::H6)
    } else if t == "aside"@ {
        ElementTypeId::Generic
    } else if t == "b"@ {
        ElementTypeId::Generic
    } else if t == "i"@ {
        ElementTypeId::Generic
    } else if t == "section"@ {
        ElementTypeId::Generic
    } else {
        ElementTypeId::Unknown
    }
}

/// Whether two strings hold the same characters.
pub fn str_eq(a: &str, b: &str) -> (r: bool)
    ensures
        r == (a@ == b@),
{
    let x = a.to_owned();
    let y = b.to_owned();
    x == y
}

/// Looks a tag name up in the dispatch table.
pub fn element_type_for_tag(tag: &str) -> (r: ElementTypeId)
    ensures
        r == tag_type(tag@),
{
    if str_eq(tag, "a") {
        return ElementTypeId::Anchor;
    }
    if str_eq(tag, "applet") {
        return ElementTypeId::Applet;
    }
    if str_eq(tag, "area") {
        return ElementTypeId::Area;
    }
    if str_eq(tag, "br") {
        return ElementTypeId::BR;
    }
    if str_eq(tag, "body") {
        return ElementTypeId::Body;
    }
    if str_eq(tag, "canvas") {
        return ElementTypeId::Canvas;
    }
    if str_eq(tag, "div") {
        return ElementTypeId::Div;
    }
    if str_eq(tag, "dl") {
        return ElementTypeId::DList;
    }
    if str_eq(tag, "font") {
        return ElementTypeId::Font;
    }
    if str_eq(tag, "form") {
        return ElementTypeId::Form;
    }
    if str_eq(tag, "hr") {
        return ElementTypeId::HR;
    }
    if str_eq(tag, "head") {
        return ElementTypeId::Head;
    }
    if str_eq(tag, "html") {
        return ElementTypeId::Html;
    }
    if str_eq(tag, "input") {
        return ElementTypeId::Input;
    }
    if str_eq(tag, "link") {
        return ElementTypeId::Link;
    }
    if str_eq(tag, "li") {
        return ElementTypeId::ListItem;
    }
    if str_eq(tag, "meta") {
        return ElementTypeId::Meta;
    }
    if str_eq(tag, "ol") {
        return ElementTypeId::OList;
    }
    if str_eq(tag, "option") {
        return ElementTypeId::OptionElement;
    }
    if str_eq(tag, "p") {
        return ElementTypeId::Paragraph;
    }
    if str_eq(tag, "script") {
        return ElementTypeId::Script;
    }
    if str_eq(tag, "select") {
        return ElementTypeId::Select;
    }
    if str_eq(tag, "small") {
        return ElementTypeId::Small;
    }
    if str_eq(tag, "source") {
        return ElementTypeId::Source;
    }
    if str_eq(tag, "span") {
        return ElementTypeId::Span;
    }
    if str_eq(tag, "style") {
        return ElementTypeId::Style;
    }
    if str_eq(tag, "caption") {
        return ElementTypeId::TableCaption;
    }
    if str_eq(tag, "td") {
        return ElementTypeId::TableCell;
    }
    if str_eq(tag, "table") {
        return ElementTypeId::Table;
    }
    if str_eq(tag, "tbody") {
        return ElementTypeId::TableSection;
    }
    if str_eq(tag, "textarea") {
        return ElementTypeId::TextArea;
    }
    if str_eq(tag, "time") {
        return ElementTypeId::Time;
    }
    if str_eq(tag, "title") {
        return ElementTypeId::Title;
    }
    if str_eq(tag, "tr") {
        return ElementTypeId::TableRow;
    }
    if str_eq(tag, "ul") {
        return ElementTypeId::UList;
    }
    if str_eq(tag, "img") {
        return ElementTypeId::Image;
    }
    if str_eq(tag, "iframe") {
        return ElementTypeId::IFrame;
    }
    if str_eq(tag, "h1") {
        return ElementTypeId::Heading(HeadingLevel::H1);
    }
    if str_eq(tag, "h2") {
        return ElementTypeId::Heading(HeadingLevel::H2);
    }
    if str_eq(tag, "h3") {
        return ElementTypeId::Heading(HeadingLevel::H3);
    }
    if str_eq(tag, "h4") {
        return ElementTypeId::Heading(HeadingLevel::H4);
    }
    if str_eq(tag, "h5") {
        return ElementTypeId::Heading(HeadingLevel::H5);
    }
    if str_eq(tag, "h6") {
        return ElementTypeId::Heading(HeadingLevel::H6);
    }
    if str_eq(tag, "aside") {
        return ElementTypeId::Generic;
    }
    if str_eq(tag, "b") {
        return ElementTypeId::Generic;
    }
    if str_eq(tag, "i") {
        return ElementTypeId::Generic;
    }
    if str_eq(tag, "section") {
        return ElementTypeId::Generic;
    }
    ElementTypeId::Unknown
}

/// The value of the last attribute named `key`: a later write wins.
pub open spec fn lookup_attr(attrs: Seq<(String, String)>, key: Seq<char>) -> Option<Seq<char>>
    decreases attrs.len(),
{
    if attrs.len() == 0 {
        None
    } else if attrs.last().0@ == key {
        Some(attrs.last().1@)
    } else {
        lookup_attr(attrs.drop_last(), key)
    }
}

/// An element node's own data.
pub struct Element {
    pub type_id: ElementTypeId,
    pub tag_name: String,
    /// Attributes in the order they were set; a later one shadows an earlier one.
    pub attrs: Vec<(String, String)>,
    /// The `src` of an `img` or `iframe` as written; the caller resolves it.
    pub source: Option<String>,
    /// The subpage identifier given to an `iframe`.
    pub subpage_id: Option<u64>,
}

impl Element {
    pub open spec fn attr(&self, key: Seq<char>) -> Option<Seq<char>> {
        lookup_attr(self.attrs@, key)
    }

    /// The value of an attribute, if set.
    pub fn get_attr(&self, name: &str) -> (r: Option<&String>)
        ensures
            r.is_some() == self.attr(name@).is_some(),
            r.is_some() ==> r.unwrap()@ == self.attr(name@).unwrap(),
    {
        let mut i: usize = self.attrs.len();
        assert(self.attrs@.subrange(0, i as int) =~= self.attrs@);
        while i > 0
            invariant
                i <= self.attrs.len(),
                lookup_attr(self.attrs@, name@) == lookup_attr(self.attrs@.subrange(0, i as int), name@),
            decreases i,
        {
            let ghost pre = self.attrs@.subrange(0, i as int);
            assert(pre.drop_last() =~= self.attrs@.subrange(0, i - 1));
            if str_eq(self.attrs[i - 1].0.as_str(), name) {
                return Some(&self.attrs[i - 1].1);
            }
            i = i - 1;
        }
        None
    }
}

/// Creates the element for a tag name with its kind's defaults. Never fails:
/// an unknown tag gives an element of kind `Unknown` that keeps the name.
pub fn build_element_from_tag(tag: &str) -> (r: Element)
    ensures
        r.type_id == tag_type(tag@),
        r.tag_name@ == tag@,
        r.attrs@.len() == 0,
        r.source.is_none(),
        r.subpage_id.is_none(),
{
    Element {
        type_id: element_type_for_tag(tag),
        tag_name: tag.to_owned(),
        attrs: Vec::new(),
        source: None,
        subpage_id: None,
    }
}

} // verus!
