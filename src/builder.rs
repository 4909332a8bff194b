//! The tree-construction adapter: one operation per tokenizer event. It builds
//! the document and records, in order, the side requests that nodes trigger.
use vstd::prelude::*;
use crate::element::{
    build_element_from_tag, lookup_attr, str_eq, tag_type, Element, ElementTypeId,
};
use crate::tree::{Doctype, Document, NodeData, TreeError};

verus! {

/// A request made while building the tree. Addresses are the attribute values
/// as written; they are resolved against the document's address by the caller.
pub enum ParserAction {
    /// Fetch and parse the stylesheet of a `<link rel="stylesheet">`.
    LoadStylesheet(String),
    /// Parse the text of a `<style>` element.
    InlineStylesheet(String),
    /// Fetch the script of a completed `<script src>`.
    LoadScript(String),
    /// Ask the image cache to prefetch an `<img src>`.
    PrefetchImage(String),
    /// Register an `<iframe src>` with its subpage identifier; also a discovery.
    RegisterFrame(String, u64),
}

/// The value of a `ParserAction`, with strings as character sequences.
pub enum ActionView {
    LoadStylesheet(Seq<char>),
    InlineStylesheet(Seq<char>),
    LoadScript(Seq<char>),
    PrefetchImage(Seq<char>),
    RegisterFrame(Seq<char>, u64),
}

impl ParserAction {
    pub open spec fn view(&self) -> ActionView {
        match self {
            ParserAction::LoadStylesheet(s) => ActionView::LoadStylesheet(s@),
            ParserAction::InlineStylesheet(s) => ActionView::InlineStylesheet(s@),
            ParserAction::LoadScript(s) => ActionView::LoadScript(s@),
            ParserAction::PrefetchImage(s) => ActionView::PrefetchImage(s@),
            ParserAction::RegisterFrame(s, id) => ActionView::RegisterFrame(s@, *id),
        }
    }
}

/// Whether opening an element of this kind with these attributes takes a subpage identifier.
pub open spec fn takes_subpage(ty: ElementTypeId, attrs: Seq<(String, String)>) -> bool {
    ty == ElementTypeId::IFrame && lookup_attr(attrs, "src"@).is_some()
}

/// The requests that opening an element makes, given the next free subpage identifier.
pub open spec fn element_actions(ty: ElementTypeId, attrs: Seq<(String, String)>, next: u64) -> Seq<ActionView> {
    if ty == ElementTypeId::Link && lookup_attr(attrs, "rel"@) == Some("stylesheet"@)
        && lookup_attr(attrs, "href"@).is_some() {
        seq![ActionView::LoadStylesheet(lookup_attr(attrs, "href"@).unwrap())]
    } else if takes_subpage(ty, attrs) {
        seq![ActionView::RegisterFrame(lookup_attr(attrs, "src"@).unwrap(), next)]
    } else if ty == ElementTypeId::Image && lookup_attr(attrs, "src"@).is_some() {
        seq![ActionView::PrefetchImage(lookup_attr(attrs, "src"@).unwrap())]
    } else {
        seq![]
    }
}

/// The source that opening an element records on it (`img` and `iframe`).
pub open spec fn element_source(ty: ElementTypeId, attrs: Seq<(String, String)>) -> Option<Seq<char>> {
    if (ty == ElementTypeId::IFrame || ty == ElementTypeId::Image) {
        lookup_attr(attrs, "src"@)
    } else {
        None
    }
}

/// The requests that completing a `<script>` node makes.
pub open spec fn script_actions(d: NodeData) -> Seq<ActionView> {
    match d {
        NodeData::Element(e) => match lookup_attr(e.attrs@, "src"@) {
            Some(s) => seq![ActionView::LoadScript(s)],
            None => seq![],
        },
        _ => seq![],
    }
}

/// Builds one document from tokenizer events.
pub struct TreeBuilder {
    doc: Document,
    next_subpage_id: u64,
    actions: Vec<ParserAction>,
}

impl TreeBuilder {
    pub closed spec fn document(&self) -> Document {
        self.doc
    }

    /// The subpage identifier that the next `<iframe src>` will get.
    pub closed spec fn next_subpage(&self) -> u64 {
        self.next_subpage_id
    }

    /// The requests made so far, in order.
    pub closed spec fn actions(&self) -> Seq<ActionView> {
        self.actions@.map_values(|a: ParserAction| a@)
    }

    pub open spec fn wf(&self) -> bool {
        self.document().wf()
    }

    /// A builder whose document holds only an `html` root element.
    pub fn new(next_subpage_id: u64) -> (r: TreeBuilder)
        ensures
            r.wf(),
            r.document().len() == 1,
            r.document().parent(0).is_none(),
            r.document().data(0) is Element,
            r.document().data(0)->Element_0.type_id == ElementTypeId::Html,
            r.document().data(0)->Element_0.tag_name@ == "html"@,
            r.document().data(0)->Element_0.attrs@.len() == 0,
            r.document().data(0)->Element_0.subpage_id.is_none(),
            r.document().children(0).len() == 0,
            r.next_subpage() == next_subpage_id,
            r.actions().len() == 0,
    {
        let root = Element {
            type_id: ElementTypeId::Html,
            tag_name: "html".to_owned(),
            attrs: Vec::new(),
            source: None,
            subpage_id: None,
        };
        let r = TreeBuilder {
            doc: Document::new(NodeData::Element(root)),
            next_subpage_id,
            actions: Vec::new(),
        };
        assert(r.actions() =~= Seq::<ActionView>::empty());
        r
    }

    fn add(&mut self, data: NodeData) -> (r: usize)
        requires
            old(self).wf(),
            old(self).document().len() < usize::MAX,
        ensures
            final(self).wf(),
            r == old(self).document().len(),
            final(self).document().len() == old(self).document().len() + 1,
            final(self).document().data(r as int) == data,
            final(self).document().parent(r as int).is_none(),
            final(self).document().children(r as int).len() == 0,
            final(self).document().unchanged_except(&old(self).document(), r as int),
            final(self).next_subpage() == old(self).next_subpage(),
            final(self).actions() == old(self).actions(),
    {
        self.doc.add_node(data)
    }

    /// A comment node.
    pub fn create_comment(&mut self, text: String) -> (r: usize)
        requires
            old(self).wf(),
            old(self).document().len() < usize::MAX,
        ensures
            final(self).wf(),
            r == old(self).document().len(),
            final(self).document().len() == old(self).document().len() + 1,
            final(self).document().data(r as int) == NodeData::Comment(text),
            final(self).document().parent(r as int).is_none(),
            final(self).document().children(r as int).len() == 0,
            final(self).document().unchanged_except(&old(self).document(), r as int),
            final(self).next_subpage() == old(self).next_subpage(),
            final(self).actions() == old(self).actions(),
    {
        self.add(NodeData::Comment(text))
    }

    /// A text node.
    pub fn create_text(&mut self, text: String) -> (r: usize)
        requires
            old(self).wf(),
            old(self).document().len() < usize::MAX,
        ensures
            final(self).wf(),
            r == old(self).document().len(),
            final(self).document().len() == old(self).document().len() + 1,
            final(self).document().data(r as int) == NodeData::Text(text),
            final(self).document().parent(r as int).is_none(),
            final(self).document().children(r as int).len() == 0,
            final(self).document().unchanged_except(&old(self).document(), r as int),
            final(self).next_subpage() == old(self).next_subpage(),
            final(self).actions() == old(self).actions(),
    {
        self.add(NodeData::Text(text))
    }

    /// A doctype node.
    pub fn create_doctype(&mut self, doctype: Doctype) -> (r: usize)
        requires
            old(self).wf(),
            old(self).document().len() < usize::MAX,
        ensures
            final(self).wf(),
            r == old(self).document().len(),
            final(self).document().len() == old(self).document().len() + 1,
            final(self).document().data(r as int) == NodeData::Doctype(doctype),
            final(self).document().parent(r as int).is_none(),
            final(self).document().children(r as int).len() == 0,
            final(self).document().unchanged_except(&old(self).document(), r as int),
            final(self).next_subpage() == old(self).next_subpage(),
            final(self).actions() == old(self).actions(),
    {
        self.add(NodeData::Doctype(doctype))
    }
}

impl TreeBuilder {
    /// An element node for a tag, with its attributes applied in order; the
    /// element's kind decides which request, if any, it makes.
    pub fn create_element(&mut self, tag: &str, attrs: Vec<(String, String)>) -> (r: usize)
        requires
            old(self).wf(),
            old(self).document().len() < usize::MAX,
            takes_subpage(tag_type(tag@), attrs@) ==> old(self).next_subpage() < u64::MAX,
        ensures
            final(self).wf(),
            r == old(self).document().len(),
            final(self).document().len() == old(self).document().len() + 1,
            final(self).document().data(r as int) is Element,
            final(self).document().data(r as int)->Element_0.type_id == tag_type(tag@),
            final(self).document().data(r as int)->Element_0.tag_name@ == tag@,
            final(self).document().data(r as int)->Element_0.attrs@ == attrs@,
            final(self).document().data(r as int)->Element_0.source.is_some()
                == element_source(tag_type(tag@), attrs@).is_some(),
            final(self).document().data(r as int)->Element_0.source.is_some()
                ==> final(self).document().data(r as int)->Element_0.source.unwrap()@
                == element_source(tag_type(tag@), attrs@).unwrap(),
            final(self).document().data(r as int)->Element_0.subpage_id == if takes_subpage(
                tag_type(tag@),
                attrs@,
            ) {
                Some(old(self).next_subpage())
            } else {
                None
            },
            final(self).document().parent(r as int).is_none(),
            final(self).document().children(r as int).len() == 0,
            final(self).document().unchanged_except(&old(self).document(), r as int),
            final(self).next_subpage() == old(self).next_subpage() + if takes_subpage(
                tag_type(tag@),
                attrs@,
            ) {
                1int
            } else {
                0int
            },
            final(self).actions() == old(self).actions() + element_actions(
                tag_type(tag@),
                attrs@,
                old(self).next_subpage(),
            ),
    {
        let mut el = build_element_from_tag(tag);
        el.attrs = attrs;
        let ty = el.type_id;
        let src: Option<String> = match el.get_attr("src") {
            Some(s) => Some(s.clone()),
            None => None,
        };
        let ghost acts = element_actions(ty, el.attrs@, self.next_subpage_id);
        if ty == ElementTypeId::Link {
            let rel: Option<String> = match el.get_attr("rel") {
                Some(s) => Some(s.clone()),
                None => None,
            };
            let href: Option<String> = match el.get_attr("href") {
                Some(s) => Some(s.clone()),
                None => None,
            };
            match (rel, href) {
                (Some(rel), Some(href)) => {
                    if str_eq(rel.as_str(), "stylesheet") {
                        self.actions.push(ParserAction::LoadStylesheet(href));
                    }
                },
                _ => {},
            }
        } else if ty == ElementTypeId::IFrame {
            match src {
                Some(s) => {
                    let id = self.next_subpage_id;
                    self.next_subpage_id = id + 1;
                    el.source = Some(s.clone());
                    el.subpage_id = Some(id);
                    self.actions.push(ParserAction::RegisterFrame(s, id));
                },
                None => {},
            }
        } else if ty == ElementTypeId::Image {
            match src {
                Some(s) => {
                    el.source = Some(s.clone());
                    self.actions.push(ParserAction::PrefetchImage(s));
                },
                None => {},
            }
        }
        assert(self.actions() =~= old(self).actions() + acts);
        self.doc.add_node(NodeData::Element(el))
    }

    /// Links `child` as the last child of `parent`; returns `child`.
    pub fn append_child(&mut self, parent: usize, child: usize) -> (r: Result<usize, TreeError>)
        requires
            old(self).wf(),
        ensures
            final(self).wf(),
            final(self).document().len() == old(self).document().len(),
            parent >= old(self).document().len() || child >= old(self).document().len()
                ==> r == Err::<usize, TreeError>(TreeError::NoSuchNode),
            parent < old(self).document().len() && child < old(self).document().len() ==> {
                if child == 0 || child == parent || old(self).document().parent(child as int).is_some() {
                    r == Err::<usize, TreeError>(TreeError::AlreadyLinked)
                } else {
                    r == Ok::<usize, TreeError>(child)
                }
            },
            r.is_err() ==> final(self).document() == old(self).document(),
            r.is_ok() ==> {
                &&& final(self).document().parent(child as int) == Some(parent)
                &&& final(self).document().children(parent as int)
                    == old(self).document().children(parent as int).push(child)
                &&& final(self).document().children(child as int) == old(self).document().children(child as int)
                &&& forall|i: int| 0 <= i < old(self).document().len()
                    ==> #[trigger] final(self).document().data(i) == old(self).document().data(i)
                &&& forall|i: int| 0 <= i < old(self).document().len() && i != child
                    ==> #[trigger] final(self).document().parent(i) == old(self).document().parent(i)
                &&& forall|i: int| 0 <= i < old(self).document().len() && i != parent
                    ==> #[trigger] final(self).document().children(i) == old(self).document().children(i)
            },
            final(self).next_subpage() == old(self).next_subpage(),
            final(self).actions() == old(self).actions(),
    {
        self.doc.append_child(parent, child)
    }

    /// A `<script>` is complete: one with a `src` attribute asks for its script.
    pub fn complete_script(&mut self, node: usize)
        requires
            old(self).wf(),
        ensures
            final(self).wf(),
            final(self).document() == old(self).document(),
            final(self).next_subpage() == old(self).next_subpage(),
            final(self).actions() == old(self).actions() + if node < old(self).document().len() {
                script_actions(old(self).document().data(node as int))
            } else {
                Seq::empty()
            },
    {
        if node < self.doc.node_count() {
            let src: Option<String> = match self.doc.data_of(node) {
                NodeData::Element(e) => match e.get_attr("src") {
                    Some(s) => Some(s.clone()),
                    None => None,
                },
                _ => None,
            };
            match src {
                Some(s) => {
                    self.actions.push(ParserAction::LoadScript(s));
                },
                None => {},
            }
            assert(self.actions() =~= old(self).actions() + script_actions(
                old(self).document().data(node as int),
            ));
        } else {
            assert(self.actions() =~= old(self).actions() + Seq::<ActionView>::empty());
        }
    }

    /// A `<style>` is complete: the text of its children, joined in order,
    /// becomes an inline stylesheet.
    pub fn complete_style(&mut self, node: usize)
        requires
            old(self).wf(),
        ensures
            final(self).wf(),
            final(self).document() == old(self).document(),
            final(self).next_subpage() == old(self).next_subpage(),
            final(self).actions() == old(self).actions() + if node < old(self).document().len() {
                seq![
                    ActionView::InlineStylesheet(
                        old(self).document().text_of(old(self).document().children(node as int)),
                    ),
                ]
            } else {
                Seq::empty()
            },
    {
        if node < self.doc.node_count() {
            let text = self.doc.child_text(node);
            self.actions.push(ParserAction::InlineStylesheet(text));
            assert(self.actions() =~= old(self).actions() + seq![
                ActionView::InlineStylesheet(
                    old(self).document().text_of(old(self).document().children(node as int)),
                ),
            ]);
        } else {
            assert(self.actions() =~= old(self).actions() + Seq::<ActionView>::empty());
        }
    }

    /// Hands out the requests made so far and forgets them.
    pub fn take_actions(&mut self) -> (r: Vec<ParserAction>)
        ensures
            r@.map_values(|a: ParserAction| a@) == old(self).actions(),
            final(self).actions().len() == 0,
            final(self).document() == old(self).document(),
            final(self).next_subpage() == old(self).next_subpage(),
    {
        let mut out: Vec<ParserAction> = Vec::new();
        std::mem::swap(&mut self.actions, &mut out);
        out
    }

    /// The document built so far.
    pub fn doc(&self) -> (r: &Document)
        ensures
            *r == self.document(),
    {
        &self.doc
    }

    /// The subpage identifier that the next `<iframe src>` will get.
    pub fn next_subpage_id(&self) -> (r: u64)
        ensures
            r == self.next_subpage(),
    {
        self.next_subpage_id
    }

    /// Ends the build and hands back the document.
    pub fn into_document(self) -> (r: Document)
        ensures
            r == self.document(),
    {
        self.doc
    }
}

} // verus!
