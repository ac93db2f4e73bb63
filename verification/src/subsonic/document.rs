//! Documents: a tree of elements, written as XML or as JSON.

use vstd::prelude::*;

use crate::lists::{collects, collects_none, collects_push, take_push};
use crate::order::{before, text_lt, text_lt_is_total, text_lt_is_transitive};
use crate::subsonic::errors::{code_number, SubsonicError};
use crate::text::{
    begins_with, chars_of, contains_text, decimal_int, decimal_of_int, ends_with, hex_digit, joined,
    joined_holds_its_parts, opt_str, opt_text, same, texts_are_found_inside,
};

verus! {

broadcast use {crate::lists::group_lists, vstd::std_specs::vec::group_vec_axioms};

/// An optional number, as a value.
pub open spec fn opt_int(o: Option<i64>) -> Option<int> {
    match o {
        Some(n) => Some(n as int),
        None => None,
    }
}

/// The version of the protocol.
pub open spec fn api_version() -> Seq<char> {
    "1.16.1"@
}

/// The name space of documents.
pub open spec fn xmlns() -> Seq<char> {
    "http://subsonic.org/restapi"@
}

// ---------------------------------------------------------------------------
// Elements
// ---------------------------------------------------------------------------

/// An attribute's value. XML has only text; JSON keeps the kind.
#[derive(Debug)]
pub enum AttrValue {
    Str(String),
    Int(i64),
    Bool(bool),
}

/// An element: attributes, text and elements inside.
#[derive(Debug)]
pub struct XmlNode {
    pub tag: String,
    pub attrs: Vec<(String, AttrValue)>,
    /// Element text; in JSON, the member `value`.
    pub text: Option<String>,
    pub children: Vec<XmlNode>,
    pub is_array: bool,
    pub array_child_tag: Option<String>,
}

/// An attribute's value, as a value.
pub enum AttrView {
    Str(Seq<char>),
    Int(int),
    Bool(bool),
}

/// An element, as a value.
pub struct NodeView {
    pub tag: Seq<char>,
    pub attrs: Seq<(Seq<char>, AttrView)>,
    pub text: Option<Seq<char>>,
    pub children: Seq<NodeView>,
    pub is_array: bool,
    pub array_child_tag: Option<Seq<char>>,
}

impl View for AttrValue {
    type V = AttrView;

    open spec fn view(&self) -> AttrView {
        match self {
            AttrValue::Str(s) => AttrView::Str(s@),
            AttrValue::Int(n) => AttrView::Int(*n as int),
            AttrValue::Bool(b) => AttrView::Bool(*b),
        }
    }
}

/// Attributes, as values.
pub open spec fn attrs_view(attrs: Seq<(String, AttrValue)>) -> Seq<(Seq<char>, AttrView)> {
    attrs.map_values(|a: (String, AttrValue)| (a.0@, a.1@))
}

/// An element, as a value.
pub open spec fn node_view(node: XmlNode) -> NodeView
    decreases node, 0nat,
{
    NodeView {
        tag: node.tag@,
        attrs: attrs_view(node.attrs@),
        text: opt_text(node.text),
        children: nodes_view(node.children@),
        is_array: node.is_array,
        array_child_tag: opt_text(node.array_child_tag),
    }
}

/// Elements, as values.
pub open spec fn nodes_view(nodes: Seq<XmlNode>) -> Seq<NodeView>
    decreases nodes, 0nat,
{
    if nodes.len() == 0 {
        Seq::empty()
    } else {
        nodes_view(nodes.drop_last()).push(node_view(nodes.last()))
    }
}

/// Each of several elements, as a value.
pub proof fn nodes_view_facts(nodes: Seq<XmlNode>)
    ensures
        nodes_view(nodes).len() == nodes.len(),
        forall|i: int| 0 <= i < nodes.len() ==> nodes_view(nodes)[i] == node_view(
            #[trigger] nodes[i],
        ),
    decreases nodes.len(),
{
    if nodes.len() > 0 {
        nodes_view_facts(nodes.drop_last());
        assert forall|i: int| 0 <= i < nodes.len() implies nodes_view(nodes)[i] == node_view(
            #[trigger] nodes[i],
        ) by {
            if i < nodes.len() - 1 {
                assert(nodes.drop_last()[i] == nodes[i]);
            }
        }
    }
}

/// One element more, as a value.
pub proof fn nodes_view_push(nodes: Seq<XmlNode>, node: XmlNode)
    ensures
        nodes_view(nodes.push(node)) == nodes_view(nodes).push(node_view(node)),
{
    assert(nodes.push(node).drop_last() =~= nodes);
}

/// An element with nothing in it.
pub open spec fn element(tag: Seq<char>) -> NodeView {
    NodeView {
        tag,
        attrs: Seq::empty(),
        text: None,
        children: Seq::empty(),
        is_array: false,
        array_child_tag: None,
    }
}

impl NodeView {
    /// With a text attribute more.
    pub open spec fn attr(self, key: Seq<char>, value: Seq<char>) -> NodeView {
        NodeView { attrs: self.attrs.push((key, AttrView::Str(value))), ..self }
    }

    /// With a number attribute more.
    pub open spec fn attr_int(self, key: Seq<char>, value: int) -> NodeView {
        NodeView { attrs: self.attrs.push((key, AttrView::Int(value))), ..self }
    }

    /// With a yes-or-no attribute more.
    pub open spec fn attr_bool(self, key: Seq<char>, value: bool) -> NodeView {
        NodeView { attrs: self.attrs.push((key, AttrView::Bool(value))), ..self }
    }

    /// With a text attribute more, if there is a value for it.
    pub open spec fn attr_opt(self, key: Seq<char>, value: Option<Seq<char>>) -> NodeView {
        match value {
            Some(v) => self.attr(key, v),
            None => self,
        }
    }

    /// With a number attribute more, if there is a value for it.
    pub open spec fn attr_opt_int(self, key: Seq<char>, value: Option<int>) -> NodeView {
        match value {
            Some(v) => self.attr_int(key, v),
            None => self,
        }
    }

    /// With text.
    pub open spec fn with_text(self, value: Seq<char>) -> NodeView {
        NodeView { text: Some(value), ..self }
    }

    /// With an element more inside.
    pub open spec fn child(self, node: NodeView) -> NodeView {
        NodeView { children: self.children.push(node), ..self }
    }

    /// With several elements more inside.
    pub open spec fn with_children(self, nodes: Seq<NodeView>) -> NodeView {
        NodeView { children: self.children + nodes, ..self }
    }

    /// With the elements inside listed under one name.
    pub open spec fn array_of(self, tag: Seq<char>) -> NodeView {
        NodeView { is_array: true, array_child_tag: Some(tag), ..self }
    }
}

/// The text of an attribute's value.
pub open spec fn attr_text(v: AttrView) -> Seq<char> {
    match v {
        AttrView::Str(s) => s,
        AttrView::Int(n) => decimal_int(n),
        AttrView::Bool(b) => if b {
            "true"@
        } else {
            "false"@
        },
    }
}

impl NodeView {
    /// Whether an attribute holds a text.
    pub open spec fn says(self, key: Seq<char>, value: Seq<char>) -> bool {
        self.attrs.contains((key, AttrView::Str(value)))
    }

    /// Whether an attribute holds a number.
    pub open spec fn counts(self, key: Seq<char>, value: int) -> bool {
        self.attrs.contains((key, AttrView::Int(value)))
    }

    /// Whether an attribute holds a yes or no.
    pub open spec fn marks(self, key: Seq<char>, value: bool) -> bool {
        self.attrs.contains((key, AttrView::Bool(value)))
    }
}

impl AttrValue {
    /// The text of the value in XML, before escaping.
    pub fn to_xml_text(&self) -> (r: String)
        ensures
            r@ == attr_text(self@),
    {
        match self {
            AttrValue::Str(s) => s.clone(),
            AttrValue::Int(n) => decimal_of_int(*n),
            AttrValue::Bool(b) => if *b {
                "true".to_owned()
            } else {
                "false".to_owned()
            },
        }
    }
}

// ---------------------------------------------------------------------------
// XML
// ---------------------------------------------------------------------------

/// A character as it stands in XML text.
pub open spec fn escaped_char(c: char) -> Seq<char> {
    if c == '&' {
        "&amp;"@
    } else if c == '"' {
        "&quot;"@
    } else if c == '<' {
        "&lt;"@
    } else if c == '>' {
        "&gt;"@
    } else if c == '\'' {
        "&apos;"@
    } else {
        seq![c]
    }
}

/// A text as it stands in XML.
pub open spec fn escaped(s: Seq<char>) -> Seq<char>
    decreases s.len(),
{
    if s.len() == 0 {
        Seq::empty()
    } else {
        escaped(s.drop_last()) + escaped_char(s.last())
    }
}

/// A text as it stands in XML.
pub fn xml_escape(s: &str) -> (r: String)
    ensures
        r@ == escaped(s@),
{
    let cs = chars_of(s);
    let mut out = String::new();
    let mut i: usize = 0;
    assert(cs@.take(0) =~= Seq::<char>::empty());
    while i < cs.len()
        invariant
            i <= cs@.len(),
            out@ == escaped(cs@.take(i as int)),
        decreases cs@.len() - i,
    {
        let c = cs[i];
        proof {
            assert(cs@.take(i as int + 1).drop_last() =~= cs@.take(i as int));
        }
        if c == '&' {
            out.push_str("&amp;");
        } else if c == '"' {
            out.push_str("&quot;");
        } else if c == '<' {
            out.push_str("&lt;");
        } else if c == '>' {
            out.push_str("&gt;");
        } else if c == '\'' {
            out.push_str("&apos;");
        } else {
            let ghost sofar = out@;
            out.push(c);
            assert(out@ =~= sofar + seq![c]);
        }
        i = i + 1;
    }
    assert(cs@.take(i as int) =~= cs@);
    out
}

/// Two spaces for each level.
pub open spec fn padding(indent: nat) -> Seq<char>
    decreases indent,
{
    if indent == 0 {
        Seq::empty()
    } else {
        padding((indent - 1) as nat) + "  "@
    }
}

/// Attributes, each behind a space.
pub open spec fn attrs_xml(attrs: Seq<(Seq<char>, AttrView)>) -> Seq<char>
    decreases attrs.len(),
{
    if attrs.len() == 0 {
        Seq::empty()
    } else {
        attrs_xml(attrs.drop_last()) + " "@ + attrs.last().0 + "=\""@ + escaped(
            attr_text(attrs.last().1),
        ) + "\""@
    }
}

/// An element, some levels in: its tag with attributes, and its text or the
/// elements inside it, each on a line of its own.
pub open spec fn node_xml(node: NodeView, indent: nat) -> Seq<char>
    decreases node, 0nat,
{
    let open = padding(indent) + "<"@ + node.tag + attrs_xml(node.attrs);
    if node.children.len() == 0 {
        match node.text {
            Some(t) => open + ">"@ + escaped(t) + "</"@ + node.tag + ">"@,
            None => open + "/>"@,
        }
    } else {
        open + ">\n"@ + nodes_xml(node.children, indent + 1) + padding(indent) + "</"@ + node.tag
            + ">"@
    }
}

/// Elements, each followed by a line break.
pub open spec fn nodes_xml(nodes: Seq<NodeView>, indent: nat) -> Seq<char>
    decreases nodes, 0nat,
{
    if nodes.len() == 0 {
        Seq::empty()
    } else {
        nodes_xml(nodes.drop_last(), indent) + node_xml(nodes.last(), indent) + "\n"@
    }
}

fn pad(indent: usize) -> (r: String)
    ensures
        r@ == padding(indent as nat),
{
    let mut out = String::new();
    let mut i: usize = 0;
    while i < indent
        invariant
            i <= indent,
            out@ == padding(i as nat),
        decreases indent - i,
    {
        out.push_str("  ");
        i = i + 1;
    }
    out
}

impl XmlNode {
    /// An element with nothing in it.
    pub fn new(tag: &str) -> (r: Self)
        ensures
            node_view(r) == element(tag@),
    {
        XmlNode {
            tag: tag.to_owned(),
            attrs: Vec::new(),
            text: None,
            children: Vec::new(),
            is_array: false,
            array_child_tag: None,
        }
    }

    /// Adds a text attribute.
    pub fn attr(self, key: &str, value: &str) -> (r: Self)
        ensures
            node_view(r) == node_view(self).attr(key@, value@),
    {
        let mut node = self;
        node.attrs.push((key.to_owned(), AttrValue::Str(value.to_owned())));
        node
    }

    /// Adds a number attribute.
    pub fn attr_int(self, key: &str, value: i64) -> (r: Self)
        ensures
            node_view(r) == node_view(self).attr_int(key@, value as int),
    {
        let mut node = self;
        node.attrs.push((key.to_owned(), AttrValue::Int(value)));
        node
    }

    /// Adds a yes-or-no attribute.
    pub fn attr_bool(self, key: &str, value: bool) -> (r: Self)
        ensures
            node_view(r) == node_view(self).attr_bool(key@, value),
    {
        let mut node = self;
        node.attrs.push((key.to_owned(), AttrValue::Bool(value)));
        node
    }

    /// Adds a text attribute if there is a value for it.
    pub fn attr_opt(self, key: &str, value: Option<&str>) -> (r: Self)
        ensures
            node_view(r) == node_view(self).attr_opt(key@, opt_str(value)),
    {
        match value {
            Some(v) => self.attr(key, v),
            None => self,
        }
    }

    /// Adds a number attribute if there is a value for it.
    pub fn attr_opt_int(self, key: &str, value: Option<i64>) -> (r: Self)
        ensures
            node_view(r) == node_view(self).attr_opt_int(key@, opt_int(value)),
    {
        match value {
            Some(v) => self.attr_int(key, v),
            None => self,
        }
    }

    /// Sets the element's text.
    pub fn text(self, value: &str) -> (r: Self)
        ensures
            node_view(r) == node_view(self).with_text(value@),
    {
        let mut node = self;
        node.text = Some(value.to_owned());
        node
    }

    /// Puts an element inside, behind the others.
    pub fn child(self, node: XmlNode) -> (r: Self)
        ensures
            node_view(r) == node_view(self).child(node_view(node)),
    {
        let mut out = self;
        proof {
            nodes_view_push(out.children@, node);
        }
        out.children.push(node);
        out
    }

    /// Has the elements inside listed under one name in JSON, however many there
    /// are.
    pub fn array_of(self, child_tag: &str) -> (r: Self)
        ensures
            node_view(r) == node_view(self).array_of(child_tag@),
    {
        let mut node = self;
        node.is_array = true;
        node.array_child_tag = Some(child_tag.to_owned());
        node
    }

    fn open_tag(&self) -> (r: String)
        ensures
            r@ == "<"@ + self.tag@ + attrs_xml(attrs_view(self.attrs@)),
    {
        let ghost all = attrs_view(self.attrs@);
        let mut s = crate::text::concat("<", self.tag.as_str());
        let ghost head = s@;
        let mut i: usize = 0;
        assert(all.take(0) =~= Seq::empty());
        assert(head + attrs_xml(all.take(0)) =~= head);
        while i < self.attrs.len()
            invariant
                i <= self.attrs@.len(),
                all == attrs_view(self.attrs@),
                s@ == head + attrs_xml(all.take(i as int)),
            decreases self.attrs@.len() - i,
        {
            let value = self.attrs[i].1.to_xml_text();
            s.push_str(" ");
            s.push_str(self.attrs[i].0.as_str());
            s.push_str("=\"");
            s.push_str(xml_escape(value.as_str()).as_str());
            s.push_str("\"");
            proof {
                let next = all.take(i as int + 1);
                assert(next.drop_last() =~= all.take(i as int));
                assert(next.last() == all[i as int]);
                assert(s@ =~= head + attrs_xml(next));
            }
            i = i + 1;
        }
        assert(all.take(i as int) =~= all);
        s
    }

    /// The element as XML, some levels in.
    pub fn to_xml(&self, indent: usize) -> (r: String)
        ensures
            r@ == node_xml(node_view(*self), indent as nat),
    {
        let lead = pad(indent);
        self.xml_behind(lead.as_str(), Ghost(indent as nat))
    }

    fn xml_behind(&self, lead: &str, Ghost(indent): Ghost<nat>) -> (r: String)
        requires
            lead@ == padding(indent),
        ensures
            r@ == node_xml(node_view(*self), indent),
        decreases self,
    {
        let open = self.open_tag();
        let mut out = crate::text::concat(lead, open.as_str());
        let ghost head = padding(indent) + "<"@ + self.tag@ + attrs_xml(
            attrs_view(self.attrs@),
        );
        let ghost kids = nodes_view(self.children@);
        proof {
            nodes_view_facts(self.children@);
        }
        assert(out@ =~= head);
        if self.children.len() == 0 {
            match &self.text {
                Some(t) => {
                    out.push_str(">");
                    out.push_str(xml_escape(t.as_str()).as_str());
                    out.push_str("</");
                    out.push_str(self.tag.as_str());
                    out.push_str(">");
                },
                None => {
                    out.push_str("/>");
                },
            }
            return out;
        }
        out.push_str(">\n");
        let ghost opened = out@;
        let deeper = crate::text::concat(lead, "  ");
        let mut i: usize = 0;
        assert(kids.take(0) =~= Seq::empty());
        assert(opened + nodes_xml(kids.take(0), indent + 1) =~= opened);
        while i < self.children.len()
            invariant
                i <= self.children@.len(),
                deeper@ == padding(indent + 1),
                kids == nodes_view(self.children@),
                kids.len() == self.children@.len(),
                out@ == opened + nodes_xml(kids.take(i as int), indent + 1),
            decreases self.children@.len() - i,
        {
            let inside = self.children[i].xml_behind(deeper.as_str(), Ghost(indent + 1));
            out.push_str(inside.as_str());
            out.push_str("\n");
            proof {
                let next = kids.take(i as int + 1);
                nodes_view_facts(self.children@);
                assert(next.drop_last() =~= kids.take(i as int));
                assert(next.last() == node_view(self.children@[i as int]));
                assert(out@ =~= opened + nodes_xml(next, indent + 1));
            }
            i = i + 1;
        }
        assert(kids.take(i as int) =~= kids);
        out.push_str(lead);
        out.push_str("</");
        out.push_str(self.tag.as_str());
        out.push_str(">");
        out
    }
}

// ---------------------------------------------------------------------------
// JSON
// ---------------------------------------------------------------------------

/// `serde_json::Value`: a JSON value.
#[verifier::external_type_specification]
#[verifier::external_body]
pub struct ExValue(serde_json::Value);

/// A JSON value written without white space.
pub uninterp spec fn json_text(v: serde_json::Value) -> Seq<char>;

/// A character inside a JSON string: quotes, backslashes and control characters are
/// escaped.
pub open spec fn json_escaped(c: char) -> Seq<char> {
    if c == '"' || c == '\\' {
        seq!['\\', c]
    } else if c == '\u{8}' {
        seq!['\\', 'b']
    } else if c == '\t' {
        seq!['\\', 't']
    } else if c == '\n' {
        seq!['\\', 'n']
    } else if c == '\u{c}' {
        seq!['\\', 'f']
    } else if c == '\r' {
        seq!['\\', 'r']
    } else if 32 > c as int {
        seq!['\\', 'u', '0', '0', hex_digit(c as int / 16), hex_digit(c as int % 16)]
    } else {
        seq![c]
    }
}

/// The inside of a JSON string.
pub open spec fn json_inside(s: Seq<char>) -> Seq<char>
    decreases s.len(),
{
    if s.len() == 0 {
        Seq::empty()
    } else {
        json_inside(s.drop_last()) + json_escaped(s.last())
    }
}

/// A text as a JSON string, in quotes.
pub open spec fn json_quoted(s: Seq<char>) -> Seq<char> {
    seq!['"'] + json_inside(s) + seq!['"']
}

/// JSON texts of a list of values.
pub open spec fn json_texts(values: Seq<serde_json::Value>) -> Seq<Seq<char>> {
    values.map_values(|v: serde_json::Value| json_text(v))
}

/// A member of an object: its name and the JSON text of its value.
pub type Member = (Seq<char>, Seq<char>);

/// Members of an object, as values.
pub open spec fn members_view(m: Seq<(String, serde_json::Value)>) -> Seq<Member> {
    m.map_values(|e: (String, serde_json::Value)| (e.0@, json_text(e.1)))
}

/// An array written without white space.
pub open spec fn array_text(items: Seq<Seq<char>>) -> Seq<char> {
    "["@ + joined(items, ","@) + "]"@
}

/// An object written without white space, its members in the order given.
pub open spec fn object_text(members: Seq<Member>) -> Seq<char> {
    "{"@ + joined(members.map_values(|m: Member| json_quoted(m.0) + ":"@ + m.1), ","@) + "}"@
}

/// Whether members are in the order of their names, no name twice.
pub open spec fn in_order(members: Seq<Member>) -> bool {
    forall|i: int, j: int|
        0 <= i < j < members.len() ==> text_lt((#[trigger] members[i]).0, (#[trigger] members[j]).0)
}

/// Members with one put in its place, over one of the same name.
pub open spec fn put(members: Seq<Member>, name: Seq<char>, value: Seq<char>) -> Seq<Member>
    decreases members.len(),
{
    if members.len() == 0 || text_lt(name, members[0].0) {
        seq![(name, value)] + members
    } else if members[0].0 == name {
        seq![(name, value)] + members.skip(1)
    } else {
        seq![members[0]] + put(members.skip(1), name, value)
    }
}

/// `serde_json::Value::String`: written as a JSON string, with quotes, backslashes and
/// control characters escaped and every other character as it is.
#[verifier::external_body]
fn json_string(s: &str) -> (v: serde_json::Value)
    ensures
        json_text(v) == json_quoted(s@),
{
    serde_json::Value::String(s.to_owned())
}

/// `serde_json::Value::Number` of an integer: written in decimal.
#[verifier::external_body]
fn json_int(n: i64) -> (v: serde_json::Value)
    ensures
        json_text(v) == decimal_int(n as int),
{
    serde_json::Value::Number(n.into())
}

/// `serde_json::Value::Bool`: written as `true` or `false`.
#[verifier::external_body]
fn json_bool(b: bool) -> (v: serde_json::Value)
    ensures
        json_text(v) == if b {
            "true"@
        } else {
            "false"@
        },
{
    serde_json::Value::Bool(b)
}

/// `serde_json::Value::Array`: its items in order.
#[verifier::external_body]
fn json_array(items: Vec<serde_json::Value>) -> (v: serde_json::Value)
    ensures
        json_text(v) == array_text(json_texts(items@)),
{
    serde_json::Value::Array(items)
}

/// `serde_json::Value::Object` of members in order: written in that order, whether
/// the map sorts its keys or keeps them as they come.
#[verifier::external_body]
fn json_object(members: Vec<(String, serde_json::Value)>) -> (v: serde_json::Value)
    requires
        in_order(members_view(members@)),
    ensures
        json_text(v) == object_text(members_view(members@)),
{
    serde_json::Value::Object(members.into_iter().collect())
}

/// `serde_json::to_string`: the value without white space. It fails only on maps
/// whose keys are no strings, which a value does not have.
#[verifier::external_body]
fn write_json(v: &serde_json::Value) -> (s: String)
    ensures
        s@ == json_text(*v),
{
    serde_json::to_string(v).unwrap()
}

/// An attribute's value in JSON.
pub open spec fn attr_json(v: AttrView) -> Seq<char> {
    match v {
        AttrView::Str(s) => json_quoted(s),
        _ => attr_text(v),
    }
}

/// The attributes of an element as members; of two with one name the later counts.
pub open spec fn attr_members(attrs: Seq<(Seq<char>, AttrView)>) -> Seq<Member>
    decreases attrs.len(),
{
    if attrs.len() == 0 {
        Seq::empty()
    } else {
        put(attr_members(attrs.drop_last()), attrs.last().0, attr_json(attrs.last().1))
    }
}

/// An element in JSON: an object of its attributes, its text as `value`, and the
/// elements inside. These are one array if the element says so; else each tag is a
/// member, an array where it occurs more than once.
pub open spec fn node_json(node: NodeView) -> Seq<char>
    decreases node, 0nat,
{
    let attrs = attr_members(node.attrs);
    let with_text = match node.text {
        Some(t) => put(attrs, "value"@, json_quoted(t)),
        None => attrs,
    };
    object_text(
        if node.is_array {
            put(
                with_text,
                match node.array_child_tag {
                    Some(tag) => tag,
                    None => "item"@,
                },
                array_text(nodes_json(node.children)),
            )
        } else {
            with_groups(with_text, node.children, nodes_json(node.children), node.children.len())
        },
    )
}

/// Elements in JSON.
pub open spec fn nodes_json(nodes: Seq<NodeView>) -> Seq<Seq<char>>
    decreases nodes, 0nat,
{
    if nodes.len() == 0 {
        Seq::empty()
    } else {
        nodes_json(nodes.drop_last()).push(node_json(nodes.last()))
    }
}

/// Whether element `i` is the first with its tag.
pub open spec fn first_of_tag(nodes: Seq<NodeView>, i: int) -> bool {
    forall|k: int| 0 <= k < i ==> (#[trigger] nodes[k]).tag != nodes[i].tag
}

/// The JSON texts of the elements with a tag, among the first `n`.
pub open spec fn with_tag(
    nodes: Seq<NodeView>,
    json: Seq<Seq<char>>,
    tag: Seq<char>,
    n: nat,
) -> Seq<Seq<char>>
    decreases n,
{
    if n == 0 {
        Seq::empty()
    } else {
        let rest = with_tag(nodes, json, tag, (n - 1) as nat);
        if nodes[n - 1].tag == tag {
            rest.push(json[n - 1])
        } else {
            rest
        }
    }
}

/// One text, or an array of several.
pub open spec fn one_or_array(items: Seq<Seq<char>>) -> Seq<char> {
    if items.len() == 1 {
        items[0]
    } else {
        array_text(items)
    }
}

/// Members with one for each tag among the first `n` elements.
pub open spec fn with_groups(
    members: Seq<Member>,
    nodes: Seq<NodeView>,
    json: Seq<Seq<char>>,
    n: nat,
) -> Seq<Member>
    decreases n,
{
    if n == 0 {
        members
    } else {
        let rest = with_groups(members, nodes, json, (n - 1) as nat);
        if first_of_tag(nodes, n - 1) {
            put(
                rest,
                nodes[n - 1].tag,
                one_or_array(with_tag(nodes, json, nodes[n - 1].tag, nodes.len())),
            )
        } else {
            rest
        }
    }
}

/// Putting a member in keeps the order.
pub proof fn put_keeps_order(members: Seq<Member>, name: Seq<char>, value: Seq<char>)
    requires
        in_order(members),
    ensures
        in_order(put(members, name, value)),
        forall|m: Member| #[trigger]
            put(members, name, value).contains(m) ==> m == (name, value) || members.contains(m),
    decreases members.len(),
{
    let out = put(members, name, value);
    if members.len() == 0 {
        assert(out =~= seq![(name, value)]);
    } else if text_lt(name, members[0].0) {
        assert forall|i: int, j: int| 0 <= i < j < out.len() implies text_lt(
            (#[trigger] out[i]).0,
            (#[trigger] out[j]).0,
        ) by {
            assert(out[j] == members[j - 1]);
            if i > 0 {
                assert(out[i] == members[i - 1]);
            } else if j > 1 {
                assert(text_lt(members[0].0, members[j - 1].0));
                text_lt_is_transitive(name, members[0].0, members[j - 1].0);
            }
        }
        assert forall|m: Member| #[trigger] out.contains(m) implies m == (name, value)
            || members.contains(m) by {
            let k = choose|k: int| 0 <= k < out.len() && out[k] == m;
            if k > 0 {
                assert(members[k - 1] == m);
            }
        }
    } else if members[0].0 == name {
        assert forall|i: int, j: int| 0 <= i < j < out.len() implies text_lt(
            (#[trigger] out[i]).0,
            (#[trigger] out[j]).0,
        ) by {
            assert(out[j] == members[j]);
            assert(text_lt(members[i].0, members[j].0));
            if i > 0 {
                assert(out[i] == members[i]);
            }
        }
        assert forall|m: Member| #[trigger] out.contains(m) implies m == (name, value)
            || members.contains(m) by {
            let k = choose|k: int| 0 <= k < out.len() && out[k] == m;
            if k > 0 {
                assert(members[k] == m);
            }
        }
    } else {
        let rest = members.skip(1);
        let tail = put(rest, name, value);
        text_lt_is_total(name, members[0].0);
        assert forall|i: int, j: int| 0 <= i < j < rest.len() implies text_lt(
            (#[trigger] rest[i]).0,
            (#[trigger] rest[j]).0,
        ) by {
            assert(text_lt(members[i + 1].0, members[j + 1].0));
        }
        put_keeps_order(rest, name, value);
        assert forall|i: int, j: int| 0 <= i < j < out.len() implies text_lt(
            (#[trigger] out[i]).0,
            (#[trigger] out[j]).0,
        ) by {
            assert(out[j] == tail[j - 1]);
            if i > 0 {
                assert(out[i] == tail[i - 1]);
            } else {
                assert(tail.contains(tail[j - 1]));
                if tail[j - 1] != (name, value) {
                    let k = choose|k: int| 0 <= k < rest.len() && rest[k] == tail[j - 1];
                    assert(rest[k] == members[k + 1]);
                    assert(text_lt(members[0].0, members[k + 1].0));
                }
            }
        }
        assert forall|m: Member| #[trigger] out.contains(m) implies m == (name, value)
            || members.contains(m) by {
            let k = choose|k: int| 0 <= k < out.len() && out[k] == m;
            if k == 0 {
                assert(members[0] == m);
            } else {
                assert(tail[k - 1] == m);
                assert(tail.contains(m));
                if m != (name, value) {
                    let q = choose|q: int| 0 <= q < rest.len() && rest[q] == m;
                    assert(members[q + 1] == m);
                }
            }
        }
    }
}

/// Where a member is put: before the first that does not come before it.
proof fn put_at(members: Seq<Member>, name: Seq<char>, value: Seq<char>, p: int)
    requires
        0 <= p <= members.len(),
        forall|k: int| 0 <= k < p ==> text_lt((#[trigger] members[k]).0, name),
        p < members.len() ==> !text_lt(members[p].0, name),
    ensures
        put(members, name, value) == if p < members.len() && members[p].0 == name {
            members.update(p, (name, value))
        } else {
            members.insert(p, (name, value))
        },
    decreases members.len(),
{
    let out = put(members, name, value);
    if p == 0 {
        if members.len() > 0 {
            text_lt_is_total(members[0].0, name);
            if members[0].0 == name {
                assert(out =~= members.update(0, (name, value)));
            } else {
                assert(out =~= members.insert(0, (name, value)));
            }
        } else {
            assert(out =~= members.insert(0, (name, value)));
        }
    } else {
        text_lt_is_total(members[0].0, name);
        let rest = members.skip(1);
        assert forall|k: int| 0 <= k < p - 1 implies text_lt((#[trigger] rest[k]).0, name) by {
            assert(text_lt(members[k + 1].0, name));
        }
        put_at(rest, name, value, p - 1);
        if p < members.len() && members[p].0 == name {
            assert(out =~= members.update(p, (name, value)));
        } else {
            assert(out =~= members.insert(p, (name, value)));
        }
    }
}

fn put_member(
    members: Vec<(String, serde_json::Value)>,
    name: &str,
    value: serde_json::Value,
) -> (r: Vec<(String, serde_json::Value)>)
    requires
        in_order(members_view(members@)),
    ensures
        members_view(r@) == put(members_view(members@), name@, json_text(value)),
        in_order(members_view(r@)),
{
    let ghost all = members_view(members@);
    let ghost text = json_text(value);
    let mut p: usize = 0;
    while p < members.len() && before(members[p].0.as_str(), name)
        invariant
            p <= members@.len(),
            all == members_view(members@),
            forall|k: int| 0 <= k < p ==> text_lt((#[trigger] all[k]).0, name@),
        decreases members@.len() - p,
    {
        p = p + 1;
    }
    proof {
        put_at(all, name@, text, p as int);
        put_keeps_order(all, name@, text);
    }
    let mut out = members;
    if p < out.len() && same(out[p].0.as_str(), name) {
        out.set(p, (name.to_owned(), value));
        assert(members_view(out@) =~= all.update(p as int, (name@, text)));
    } else {
        out.insert(p, (name.to_owned(), value));
        assert(members_view(out@) =~= all.insert(p as int, (name@, text)));
    }
    out
}

proof fn nodes_json_facts(nodes: Seq<NodeView>)
    ensures
        nodes_json(nodes).len() == nodes.len(),
        forall|i: int| 0 <= i < nodes.len() ==> nodes_json(nodes)[i] == node_json(
            #[trigger] nodes[i],
        ),
    decreases nodes.len(),
{
    if nodes.len() > 0 {
        nodes_json_facts(nodes.drop_last());
        assert forall|i: int| 0 <= i < nodes.len() implies nodes_json(nodes)[i] == node_json(
            #[trigger] nodes[i],
        ) by {
            if i < nodes.len() - 1 {
                assert(nodes.drop_last()[i] == nodes[i]);
            }
        }
    }
}

impl AttrValue {
    /// The value in JSON.
    pub fn to_json(&self) -> (r: serde_json::Value)
        ensures
            json_text(r) == attr_json(self@),
    {
        match self {
            AttrValue::Str(s) => json_string(s.as_str()),
            AttrValue::Int(n) => json_int(*n),
            AttrValue::Bool(b) => json_bool(*b),
        }
    }
}

impl XmlNode {
    fn attrs_as_members(&self) -> (r: Vec<(String, serde_json::Value)>)
        ensures
            members_view(r@) == attr_members(attrs_view(self.attrs@)),
            in_order(members_view(r@)),
    {
        let ghost all = attrs_view(self.attrs@);
        let mut out: Vec<(String, serde_json::Value)> = Vec::new();
        let mut i: usize = 0;
        assert(all.take(0) =~= Seq::empty());
        assert(members_view(out@) =~= Seq::empty());
        while i < self.attrs.len()
            invariant
                i <= self.attrs@.len(),
                all == attrs_view(self.attrs@),
                members_view(out@) == attr_members(all.take(i as int)),
                in_order(members_view(out@)),
            decreases self.attrs@.len() - i,
        {
            out = put_member(out, self.attrs[i].0.as_str(), self.attrs[i].1.to_json());
            proof {
                let next = all.take(i as int + 1);
                assert(next.drop_last() =~= all.take(i as int));
                assert(next.last() == all[i as int]);
            }
            i = i + 1;
        }
        assert(all.take(i as int) =~= all);
        out
    }

    fn seen_before(&self, i: usize) -> (r: bool)
        requires
            i < self.children@.len(),
        ensures
            r == !first_of_tag(nodes_view(self.children@), i as int),
    {
        let ghost kids = nodes_view(self.children@);
        proof {
            nodes_view_facts(self.children@);
        }
        let mut k: usize = 0;
        while k < i
            invariant
                k <= i < self.children@.len(),
                kids == nodes_view(self.children@),
                kids.len() == self.children@.len(),
                forall|j: int| 0 <= j < kids.len() ==> kids[j] == node_view(
                    #[trigger] self.children@[j],
                ),
                forall|j: int| 0 <= j < k ==> (#[trigger] kids[j]).tag != kids[i as int].tag,
            decreases i - k,
        {
            assert(kids[k as int] == node_view(self.children@[k as int]));
            assert(kids[i as int] == node_view(self.children@[i as int]));
            if same(self.children[k].tag.as_str(), self.children[i].tag.as_str()) {
                return true;
            }
            k = k + 1;
        }
        false
    }

    /// The element in JSON.
    pub fn to_json_value(&self) -> (r: serde_json::Value)
        ensures
            json_text(r) == node_json(node_view(*self)),
        decreases self, 1nat, 0nat,
    {
        let ghost kids = nodes_view(self.children@);
        let mut members = self.attrs_as_members();
        if let Some(t) = &self.text {
            members = put_member(members, "value", json_string(t.as_str()));
        }
        let ghost head = members_view(members@);
        if self.is_array {
            let mut items: Vec<serde_json::Value> = Vec::new();
            let ghost json = nodes_json(kids);
            proof {
                nodes_view_facts(self.children@);
                nodes_json_facts(kids);
            }
            let mut i: usize = 0;
            while i < self.children.len()
                invariant
                    i <= self.children@.len(),
                    kids == nodes_view(self.children@),
                    kids.len() == self.children@.len(),
                    json == nodes_json(kids),
                    json.len() == kids.len(),
                    json_texts(items@) == json.take(i as int),
                decreases self.children@.len() - i,
            {
                let item = self.children[i].to_json_value();
                items.push(item);
                proof {
                    nodes_view_facts(self.children@);
                    nodes_json_facts(kids);
                    assert(json[i as int] == node_json(kids[i as int]));
                    assert(kids[i as int] == node_view(self.children@[i as int]));
                    take_push(json, i as int);
                }
                i = i + 1;
            }
            assert(json.take(i as int) =~= json);
            let name: &str = match &self.array_child_tag {
                Some(tag) => tag.as_str(),
                None => "item",
            };
            members = put_member(members, name, json_array(items));
        } else {
            let mut i: usize = 0;
            let ghost json = nodes_json(kids);
            proof {
                nodes_view_facts(self.children@);
            }
            while i < self.children.len()
                invariant
                    i <= self.children@.len(),
                    kids == nodes_view(self.children@),
                    kids.len() == self.children@.len(),
                    json == nodes_json(kids),
                    members_view(members@) == with_groups(head, kids, json, i as nat),
                    in_order(members_view(members@)),
                decreases self.children@.len() - i,
            {
                if !self.seen_before(i) {
                    let value = self.group_json(i);
                    members = put_member(members, self.children[i].tag.as_str(), value);
                    proof {
                        nodes_view_facts(self.children@);
                        assert(kids[i as int] == node_view(self.children@[i as int]));
                    }
                }
                i = i + 1;
            }
        }
        json_object(members)
    }

    /// What the elements with the tag of element `at` are in JSON.
    fn group_json(&self, at: usize) -> (r: serde_json::Value)
        requires
            at < self.children@.len(),
            first_of_tag(nodes_view(self.children@), at as int),
        ensures
            ({
                let kids = nodes_view(self.children@);
                json_text(r) == one_or_array(
                    with_tag(kids, nodes_json(kids), kids[at as int].tag, kids.len()),
                )
            }),
        decreases self, 0nat, 0nat,
    {
        let ghost kids = nodes_view(self.children@);
        let ghost json = nodes_json(kids);
        let ghost tag = kids[at as int].tag;
        proof {
            nodes_view_facts(self.children@);
            nodes_json_facts(kids);
            assert(kids[at as int] == node_view(self.children@[at as int]));
        }
        let mut items: Vec<serde_json::Value> = Vec::new();
        let mut i: usize = 0;
        assert(json_texts(items@) =~= with_tag(kids, json, tag, 0));
        while i < self.children.len()
            invariant
                i <= self.children@.len(),
                at < self.children@.len(),
                kids == nodes_view(self.children@),
                kids.len() == self.children@.len(),
                json == nodes_json(kids),
                tag == self.children@[at as int].tag@,
                json_texts(items@) == with_tag(kids, json, tag, i as nat),
            decreases self.children@.len() - i,
        {
            proof {
                nodes_view_facts(self.children@);
                nodes_json_facts(kids);
                assert(kids[i as int] == node_view(self.children@[i as int]));
                assert(json[i as int] == node_json(kids[i as int]));
            }
            if same(self.children[i].tag.as_str(), self.children[at].tag.as_str()) {
                let item = self.children[i].to_json_value();
                items.push(item);
            }
            i = i + 1;
        }
        if items.len() == 1 {
            let ghost only = json_texts(items@)[0];
            match items.pop() {
                Some(v) => {
                    assert(json_text(v) == only);
                    v
                },
                None => json_array(items),
            }
        } else {
            json_array(items)
        }
    }
}

// ---------------------------------------------------------------------------
// Responses
// ---------------------------------------------------------------------------

/// A document to send.
#[derive(Debug)]
pub struct Document {
    pub content_type: &'static str,
    pub body: String,
}

impl Document {
    /// Whether this is some text of a type.
    pub open spec fn is(self, json: bool, body: Seq<char>) -> bool {
        &&& self.content_type@ == if json {
            "application/json; charset=utf-8"@
        } else {
            "application/xml; charset=utf-8"@
        }
        &&& self.body@ == body
    }
}

/// A successful response under way.
#[derive(Debug)]
pub struct XmlBuilder {
    pub json: bool,
    pub children: Vec<XmlNode>,
}

/// Starts of responses.
pub struct SubsonicResponse {}

/// How every XML document begins, up to the status.
pub open spec fn xml_head(status: Seq<char>) -> Seq<char> {
    "<?xml version=\"1.0\" encoding=\"UTF-8\"?>\n<subsonic-response xmlns=\""@ + xmlns()
        + "\" status=\""@ + status + "\" version=\""@ + api_version() + "\">\n"@
}

/// A successful response in XML.
pub open spec fn ok_xml(nodes: Seq<NodeView>) -> Seq<char> {
    xml_head("ok"@) + nodes_xml(nodes, 1) + "</subsonic-response>"@
}

/// A failed response in XML.
pub open spec fn error_xml(code: int, message: Seq<char>) -> Seq<char> {
    xml_head("failed"@) + "  <error code=\""@ + decimal_int(code) + "\" message=\""@ + escaped(
        message,
    ) + "\"/>\n</subsonic-response>"@
}

/// What every JSON document holds.
pub open spec fn head_members(status: Seq<char>) -> Seq<Member> {
    put(
        put(Seq::empty(), "status"@, json_quoted(status)),
        "version"@,
        json_quoted(api_version()),
    )
}

/// Members with one for each element, under its tag.
pub open spec fn with_nodes(members: Seq<Member>, nodes: Seq<NodeView>) -> Seq<Member>
    decreases nodes.len(),
{
    if nodes.len() == 0 {
        members
    } else {
        put(with_nodes(members, nodes.drop_last()), nodes.last().tag, node_json(nodes.last()))
    }
}

/// Members inside the one member of a response.
pub open spec fn response_json(members: Seq<Member>) -> Seq<char> {
    object_text(seq![("subsonic-response"@, object_text(members))])
}

/// A successful response in JSON.
pub open spec fn ok_json(nodes: Seq<NodeView>) -> Seq<char> {
    response_json(with_nodes(head_members("ok"@), nodes))
}

/// A failed response in JSON.
pub open spec fn error_json(code: int, message: Seq<char>) -> Seq<char> {
    response_json(
        put(
            head_members("failed"@),
            "error"@,
            object_text(
                put(
                    put(Seq::empty(), "code"@, decimal_int(code)),
                    "message"@,
                    json_quoted(message),
                ),
            ),
        ),
    )
}

/// A successful response.
pub open spec fn ok_body(json: bool, nodes: Seq<NodeView>) -> Seq<char> {
    if json {
        ok_json(nodes)
    } else {
        ok_xml(nodes)
    }
}

/// A failed response.
pub open spec fn error_body(json: bool, e: SubsonicError) -> Seq<char> {
    if json {
        error_json(code_number(e.code), e.message@)
    } else {
        error_xml(code_number(e.code), e.message@)
    }
}

fn head(status: &str) -> (r: String)
    ensures
        r@ == xml_head(status@),
{
    let mut s =
        "<?xml version=\"1.0\" encoding=\"UTF-8\"?>\n<subsonic-response xmlns=\"".to_owned();
    s.push_str("http://subsonic.org/restapi");
    s.push_str("\" status=\"");
    s.push_str(status);
    s.push_str("\" version=\"");
    s.push_str("1.16.1");
    s.push_str("\">\n");
    s
}

fn head_values(status: &str) -> (r: Vec<(String, serde_json::Value)>)
    ensures
        members_view(r@) == head_members(status@),
        in_order(members_view(r@)),
{
    let none: Vec<(String, serde_json::Value)> = Vec::new();
    assert(members_view(none@) =~= Seq::empty());
    let one = put_member(none, "status", json_string(status));
    put_member(one, "version", json_string("1.16.1"))
}

fn response_text(members: Vec<(String, serde_json::Value)>) -> (r: String)
    requires
        in_order(members_view(members@)),
    ensures
        r@ == response_json(members_view(members@)),
{
    let ghost inside = members_view(members@);
    let none: Vec<(String, serde_json::Value)> = Vec::new();
    assert(members_view(none@) =~= Seq::empty());
    let one = put_member(none, "subsonic-response", json_object(members));
    assert(members_view(one@) =~= seq![("subsonic-response"@, object_text(inside))]);
    write_json(&json_object(one))
}

impl SubsonicResponse {
    /// A successful response with nothing in it.
    pub fn ok(json: bool) -> (r: XmlBuilder)
        ensures
            r.json == json,
            nodes_view(r.children@) == Seq::<NodeView>::empty(),
    {
        XmlBuilder { json, children: Vec::new() }
    }

    /// A failed response.
    pub fn error(json: bool, err: &SubsonicError) -> (r: Document)
        ensures
            r.is(json, error_body(json, *err)),
    {
        if json {
            let none: Vec<(String, serde_json::Value)> = Vec::new();
            assert(members_view(none@) =~= Seq::empty());
            let one = put_member(none, "code", json_int(err.code.number()));
            let both = put_member(one, "message", json_string(err.message.as_str()));
            let members = put_member(head_values("failed"), "error", json_object(both));
            Document {
                content_type: "application/json; charset=utf-8",
                body: response_text(members),
            }
        } else {
            let mut s = head("failed");
            s.push_str("  <error code=\"");
            s.push_str(decimal_of_int(err.code.number()).as_str());
            s.push_str("\" message=\"");
            s.push_str(xml_escape(err.message.as_str()).as_str());
            s.push_str("\"/>\n</subsonic-response>");
            Document { content_type: "application/xml; charset=utf-8", body: s }
        }
    }
}

impl XmlBuilder {
    /// Puts an element into the response, behind the others.
    pub fn child(self, node: XmlNode) -> (r: Self)
        ensures
            r.json == self.json,
            nodes_view(r.children@) == nodes_view(self.children@).push(node_view(node)),
            r.children@ == self.children@.push(node),
    {
        let mut out = self;
        proof {
            nodes_view_push(out.children@, node);
        }
        out.children.push(node);
        out
    }

    /// The response as a document.
    pub fn build(self) -> (r: Document)
        ensures
            r.is(self.json, ok_body(self.json, nodes_view(self.children@))),
    {
        let ghost kids = nodes_view(self.children@);
        proof {
            nodes_view_facts(self.children@);
        }
        if self.json {
            let mut members = head_values("ok");
            let ghost start = members_view(members@);
            let mut i: usize = 0;
            assert(kids.take(0) =~= Seq::empty());
            while i < self.children.len()
                invariant
                    i <= self.children@.len(),
                    kids == nodes_view(self.children@),
                    kids.len() == self.children@.len(),
                    members_view(members@) == with_nodes(start, kids.take(i as int)),
                    in_order(members_view(members@)),
                decreases self.children@.len() - i,
            {
                let value = self.children[i].to_json_value();
                members = put_member(members, self.children[i].tag.as_str(), value);
                proof {
                    nodes_view_facts(self.children@);
                    let next = kids.take(i as int + 1);
                    assert(next.drop_last() =~= kids.take(i as int));
                    assert(next.last() == node_view(self.children@[i as int]));
                }
                i = i + 1;
            }
            assert(kids.take(i as int) =~= kids);
            Document {
                content_type: "application/json; charset=utf-8",
                body: response_text(members),
            }
        } else {
            let mut s = head("ok");
            let ghost start = s@;
            let mut i: usize = 0;
            assert(kids.take(0) =~= Seq::empty());
            assert(start + nodes_xml(kids.take(0), 1) =~= start);
            while i < self.children.len()
                invariant
                    i <= self.children@.len(),
                    kids == nodes_view(self.children@),
                    kids.len() == self.children@.len(),
                    s@ == start + nodes_xml(kids.take(i as int), 1),
                decreases self.children@.len() - i,
            {
                s.push_str(self.children[i].to_xml(1).as_str());
                s.push_str("\n");
                proof {
                    nodes_view_facts(self.children@);
                    let next = kids.take(i as int + 1);
                    assert(next.drop_last() =~= kids.take(i as int));
                    assert(next.last() == node_view(self.children@[i as int]));
                    assert(s@ =~= start + nodes_xml(next, 1));
                }
                i = i + 1;
            }
            assert(kids.take(i as int) =~= kids);
            s.push_str("</subsonic-response>");
            Document { content_type: "application/xml; charset=utf-8", body: s }
        }
    }
}

/// The response to a request, in the format it asked for: what was made of it, or
/// why it failed.
pub fn render(json: bool, outcome: Result<XmlBuilder, SubsonicError>) -> (r: Document)
    requires
        match outcome {
            Ok(b) => b.json == json,
            Err(_) => true,
        },
    ensures
        match outcome {
            Ok(b) => r.is(json, ok_body(json, nodes_view(b.children@))),
            Err(e) => r.is(json, error_body(json, e)),
        },
{
    match outcome {
        Ok(b) => b.build(),
        Err(e) => SubsonicResponse::error(json, &e),
    }
}

// ---------------------------------------------------------------------------
// Laws
// ---------------------------------------------------------------------------

/// Escaped text holds no character that XML markup is made of.
pub proof fn escaped_text_is_inert(s: Seq<char>)
    ensures
        forall|i: int|
            0 <= i < escaped(s).len() ==> (#[trigger] escaped(s)[i]) != '<' && escaped(s)[i] != '>'
                && escaped(s)[i] != '"' && escaped(s)[i] != '\'',
    decreases s.len(),
{
    if s.len() > 0 {
        escaped_text_is_inert(s.drop_last());
        reveal_strlit("&amp;");
        reveal_strlit("&quot;");
        reveal_strlit("&lt;");
        reveal_strlit("&gt;");
        reveal_strlit("&apos;");
        let rest = escaped(s.drop_last());
        let last = escaped_char(s.last());
        assert forall|i: int| 0 <= i < escaped(s).len() implies (#[trigger] escaped(s)[i]) != '<'
            && escaped(s)[i] != '>' && escaped(s)[i] != '"' && escaped(s)[i] != '\'' by {
            if i < rest.len() {
                assert(escaped(s)[i] == rest[i]);
            } else {
                assert(escaped(s)[i] == last[i - rest.len()]);
            }
        }
    }
}

/// Text without any of the five special characters stands in XML as it is.
pub proof fn plain_text_is_kept(s: Seq<char>)
    requires
        forall|i: int|
            0 <= i < s.len() ==> (#[trigger] s[i]) != '&' && s[i] != '<' && s[i] != '>' && s[i]
                != '"' && s[i] != '\'',
    ensures
        escaped(s) == s,
    decreases s.len(),
{
    if s.len() > 0 {
        assert forall|i: int| 0 <= i < s.drop_last().len() implies (#[trigger] s.drop_last()[i])
            != '&' && s.drop_last()[i] != '<' && s.drop_last()[i] != '>' && s.drop_last()[i] != '"'
            && s.drop_last()[i] != '\'' by {
            assert(s.drop_last()[i] == s[i]);
        }
        plain_text_is_kept(s.drop_last());
        assert(s.last() == s[s.len() - 1]);
        assert(escaped(s) =~= s);
    }
}

// ---------------------------------------------------------------------------
// What documents hold
// ---------------------------------------------------------------------------

/// Escaping goes character by character: the five that XML gives a meaning are spelled out,
/// every other stays.
pub proof fn escapes_are_spelled_out(a: Seq<char>, c: char, b: Seq<char>)
    ensures
        escaped(a + seq![c] + b) == escaped(a) + (if c == '&' {
            seq!['&', 'a', 'm', 'p', ';']
        } else if c == '<' {
            seq!['&', 'l', 't', ';']
        } else if c == '>' {
            seq!['&', 'g', 't', ';']
        } else if c == '"' {
            seq!['&', 'q', 'u', 'o', 't', ';']
        } else if c == '\'' {
            seq!['&', 'a', 'p', 'o', 's', ';']
        } else {
            seq![c]
        }) + escaped(b),
        escaped(Seq::empty()) == Seq::<char>::empty(),
    decreases b.len(),
{
    reveal_strlit("&amp;");
    reveal_strlit("&quot;");
    reveal_strlit("&lt;");
    reveal_strlit("&gt;");
    reveal_strlit("&apos;");
    assert("&amp;"@ =~= seq!['&', 'a', 'm', 'p', ';']);
    assert("&quot;"@ =~= seq!['&', 'q', 'u', 'o', 't', ';']);
    assert("&lt;"@ =~= seq!['&', 'l', 't', ';']);
    assert("&gt;"@ =~= seq!['&', 'g', 't', ';']);
    assert("&apos;"@ =~= seq!['&', 'a', 'p', 'o', 's', ';']);
    let s = a + seq![c] + b;
    if b.len() == 0 {
        assert(s.drop_last() =~= a);
        assert(s.last() == c);
        assert(escaped(s) =~= escaped(a) + escaped_char(c) + escaped(b));
    } else {
        escapes_are_spelled_out(a, c, b.drop_last());
        assert(s.drop_last() =~= a + seq![c] + b.drop_last());
        assert(s.last() == b.last());
        assert(escaped(s) =~= escaped(a) + escaped_char(c) + escaped(b));
    }
}

/// Strings of JSON are escaped character by character: quotes, backslashes and control
/// characters are spelled out, every other stays.
pub proof fn json_escapes_are_spelled_out(a: Seq<char>, c: char, b: Seq<char>)
    ensures
        json_inside(a + seq![c] + b) == json_inside(a) + (if c == '"' {
            seq!['\\', '"']
        } else if c == '\\' {
            seq!['\\', '\\']
        } else if c == '\n' {
            seq!['\\', 'n']
        } else if c == '\r' {
            seq!['\\', 'r']
        } else if c == '\t' {
            seq!['\\', 't']
        } else if c as int == 8 {
            seq!['\\', 'b']
        } else if c as int == 12 {
            seq!['\\', 'f']
        } else if 32 > c as int {
            seq!['\\', 'u', '0', '0', hex_digit(c as int / 16), hex_digit(c as int % 16)]
        } else {
            seq![c]
        }) + json_inside(b),
        json_inside(Seq::empty()) == Seq::<char>::empty(),
    decreases b.len(),
{
    let s = a + seq![c] + b;
    if b.len() == 0 {
        assert(s.drop_last() =~= a);
        assert(s.last() == c);
        assert(json_inside(s) =~= json_inside(a) + json_escaped(c) + json_inside(b));
    } else {
        json_escapes_are_spelled_out(a, c, b.drop_last());
        assert(s.drop_last() =~= a + seq![c] + b.drop_last());
        assert(s.last() == b.last());
        assert(json_inside(s) =~= json_inside(a) + json_escaped(c) + json_inside(b));
    }
}

/// What is written of an attribute in XML.
pub open spec fn attr_xml(key: Seq<char>, value: Seq<char>) -> Seq<char> {
    " "@ + key + "=\""@ + escaped(value) + "\""@
}

proof fn attrs_are_written(attrs: Seq<(Seq<char>, AttrView)>, k: int)
    requires
        0 <= k < attrs.len(),
    ensures
        contains_text(attrs_xml(attrs), attr_xml(attrs[k].0, attr_text(attrs[k].1))),
    decreases attrs.len(),
{
    let part = attr_xml(attrs[k].0, attr_text(attrs[k].1));
    let before = attrs_xml(attrs.drop_last());
    let all = attrs_xml(attrs);
    let last = attr_xml(attrs.last().0, attr_text(attrs.last().1));
    assert(all =~= before + last);
    if k == attrs.len() - 1 {
        assert(all =~= before + part + Seq::empty());
        texts_are_found_inside(all, part);
    } else {
        attrs_are_written(attrs.drop_last(), k);
        assert(attrs.drop_last()[k] == attrs[k]);
        found_in_the_middle(Seq::empty(), before, last, part);
        assert(all =~= Seq::empty() + before + last);
    }
}

proof fn found_in_the_middle(a: Seq<char>, s: Seq<char>, c: Seq<char>, part: Seq<char>)
    requires
        contains_text(s, part),
    ensures
        contains_text(a + s + c, part),
{
    texts_are_found_inside(s, part);
    let (x, y) = choose|x: Seq<char>, y: Seq<char>| s == #[trigger] (x + part + y);
    assert(a + s + c =~= (a + x) + part + (y + c));
    texts_are_found_inside(a + s + c, part);
}

/// An element in XML begins with its tag and holds every attribute: a text as it is, a number
/// in decimal, a yes or no as `true` or `false`, escaped and in quotes.
pub proof fn attributes_are_written(node: NodeView, indent: nat, k: int)
    requires
        0 <= k < node.attrs.len(),
    ensures
        begins_with(node_xml(node, indent), padding(indent) + "<"@ + node.tag),
        contains_text(
            node_xml(node, indent),
            attr_xml(
                node.attrs[k].0,
                match node.attrs[k].1 {
                    AttrView::Str(s) => s,
                    AttrView::Int(n) => decimal_int(n),
                    AttrView::Bool(b) => if b {
                        "true"@
                    } else {
                        "false"@
                    },
                },
            ),
        ),
{
    let lead = padding(indent) + "<"@ + node.tag;
    let attrs = attrs_xml(node.attrs);
    let part = attr_xml(node.attrs[k].0, attr_text(node.attrs[k].1));
    attrs_are_written(node.attrs, k);
    let all = node_xml(node, indent);
    let rest = all.skip((lead + attrs).len() as int);
    assert(all =~= lead + attrs + rest);
    found_in_the_middle(lead, attrs, rest, part);
    assert(all.take(lead.len() as int) =~= lead);
}

/// An element in XML holds each of its children, in their order, one level deeper, and where
/// it has none its text, escaped.
pub proof fn children_are_written(node: NodeView, indent: nat, k: int)
    requires
        0 <= k < node.children.len(),
    ensures
        contains_text(node_xml(node, indent), node_xml(node.children[k], indent + 1)),
        forall|a: Seq<NodeView>, b: Seq<NodeView>|
            #![trigger nodes_xml(a + b, indent)]
            nodes_xml(a + b, indent) == nodes_xml(a, indent) + nodes_xml(b, indent),
{
    let open = padding(indent) + "<"@ + node.tag + attrs_xml(node.attrs) + ">\n"@;
    let inside = nodes_xml(node.children, indent + 1);
    nodes_are_written(node.children, indent + 1, k);
    let close = padding(indent) + "</"@ + node.tag + ">"@;
    assert(node_xml(node, indent) =~= open + inside + close);
    found_in_the_middle(open, inside, close, node_xml(node.children[k], indent + 1));
    assert forall|a: Seq<NodeView>, b: Seq<NodeView>|
        #![trigger nodes_xml(a + b, indent)]
        nodes_xml(a + b, indent) == nodes_xml(a, indent) + nodes_xml(b, indent) by {
        nodes_are_written_in_turn(a, b, indent);
    }
}

proof fn nodes_are_written_in_turn(a: Seq<NodeView>, b: Seq<NodeView>, indent: nat)
    ensures
        nodes_xml(a + b, indent) == nodes_xml(a, indent) + nodes_xml(b, indent),
    decreases b.len(),
{
    let all = a + b;
    if b.len() == 0 {
        assert(all =~= a);
        assert(nodes_xml(all, indent) =~= nodes_xml(a, indent) + nodes_xml(b, indent));
    } else {
        nodes_are_written_in_turn(a, b.drop_last(), indent);
        assert(all.drop_last() =~= a + b.drop_last());
        assert(all.last() == b.last());
        assert(nodes_xml(all, indent) =~= nodes_xml(a, indent) + nodes_xml(b, indent));
    }
}

proof fn nodes_are_written(nodes: Seq<NodeView>, indent: nat, k: int)
    requires
        0 <= k < nodes.len(),
    ensures
        contains_text(nodes_xml(nodes, indent), node_xml(nodes[k], indent)),
    decreases nodes.len(),
{
    let part = node_xml(nodes[k], indent);
    let before = nodes_xml(nodes.drop_last(), indent);
    let last = node_xml(nodes.last(), indent);
    let all = nodes_xml(nodes, indent);
    if k == nodes.len() - 1 {
        assert(all =~= before + part + "\n"@);
        texts_are_found_inside(all, part);
    } else {
        nodes_are_written(nodes.drop_last(), indent, k);
        assert(nodes.drop_last()[k] == nodes[k]);
        assert(all =~= Seq::empty() + before + (last + "\n"@));
        found_in_the_middle(Seq::empty(), before, last + "\n"@, part);
    }
}

/// An element without children holds its text, escaped, between its tags.
pub proof fn texts_are_written(node: NodeView, indent: nat)
    requires
        node.children.len() == 0,
        node.text is Some,
    ensures
        ends_with(node_xml(node, indent), escaped(node.text->0) + "</"@ + node.tag + ">"@),
{
    let tail = escaped(node.text->0) + "</"@ + node.tag + ">"@;
    let all = node_xml(node, indent);
    assert(all.skip(all.len() - tail.len()) =~= tail);
}

/// A document in XML says that all went well and holds every element, or says that it failed
/// and holds the code and the message.
pub proof fn xml_documents_hold_their_answer(
    nodes: Seq<NodeView>,
    k: int,
    code: int,
    message: Seq<char>,
)
    requires
        0 <= k < nodes.len(),
    ensures
        contains_text(ok_xml(nodes), "\" status=\""@ + "ok"@ + "\""@),
        contains_text(ok_xml(nodes), node_xml(nodes[k], 1)),
        contains_text(error_xml(code, message), "\" status=\""@ + "failed"@ + "\""@),
        contains_text(error_xml(code, message), "<error code=\""@ + decimal_int(code) + "\""@),
        contains_text(error_xml(code, message), " message=\""@ + escaped(message) + "\""@),
{
    nodes_are_written(nodes, 1, k);
    let good = ok_xml(nodes);
    assert(good =~= xml_head("ok"@) + nodes_xml(nodes, 1) + "</subsonic-response>"@);
    found_in_the_middle(
        xml_head("ok"@),
        nodes_xml(nodes, 1),
        "</subsonic-response>"@,
        node_xml(nodes[k], 1),
    );
    status_is_written("ok"@);
    found_in_the_middle(
        Seq::empty(),
        xml_head("ok"@),
        nodes_xml(nodes, 1) + "</subsonic-response>"@,
        "\" status=\""@ + "ok"@ + "\""@,
    );
    assert(good =~= Seq::empty() + xml_head("ok"@) + (nodes_xml(nodes, 1)
        + "</subsonic-response>"@));
    let bad = error_xml(code, message);
    let head = xml_head("failed"@);
    let tail = bad.skip(head.len() as int);
    status_is_written("failed"@);
    assert(bad =~= Seq::empty() + head + tail);
    found_in_the_middle(Seq::empty(), head, tail, "\" status=\""@ + "failed"@ + "\""@);
    reveal_strlit("  <error code=\"");
    reveal_strlit("<error code=\"");
    reveal_strlit("\" message=\"");
    reveal_strlit(" message=\"");
    reveal_strlit("\"");
    reveal_strlit("\"/>\n</subsonic-response>");
    let code_part = "<error code=\""@ + decimal_int(code) + "\""@;
    let message_part = " message=\""@ + escaped(message) + "\""@;
    let lead = head + seq![' ', ' '];
    assert("  <error code=\""@ =~= seq![' ', ' '] + "<error code=\""@);
    assert("\" message=\""@ =~= "\""@ + " message=\""@);
    let end = "\"/>\n</subsonic-response>"@;
    assert(end =~= "\""@ + end.skip(1));
    assert(bad =~= lead + code_part + (message_part + end.skip(1)));
    texts_are_found_inside(bad, code_part);
    assert(bad =~= (lead + code_part) + message_part + end.skip(1));
    texts_are_found_inside(bad, message_part);
}

proof fn status_is_written(status: Seq<char>)
    ensures
        contains_text(xml_head(status), "\" status=\""@ + status + "\""@),
{
    reveal_strlit("\" version=\"");
    reveal_strlit("\"");
    assert("\" version=\""@ =~= "\""@ + "\" version=\""@.skip(1));
    let a = "<?xml version=\"1.0\" encoding=\"UTF-8\"?>\n<subsonic-response xmlns=\""@ + xmlns();
    let part = "\" status=\""@ + status + "\""@;
    let c = "\" version=\""@.skip(1) + api_version() + "\">\n"@;
    assert(xml_head(status) =~= a + part + c);
    texts_are_found_inside(xml_head(status), part);
}

/// A member that is put is there, and every member of another name stays.
pub proof fn put_members_are_there(members: Seq<Member>, name: Seq<char>, value: Seq<char>)
    ensures
        put(members, name, value).contains((name, value)),
        forall|m: Member|
            members.contains(m) && m.0 != name ==> #[trigger] put(members, name, value).contains(
                m,
            ),
    decreases members.len(),
{
    let out = put(members, name, value);
    if members.len() == 0 || text_lt(name, members[0].0) {
        assert(out[0] == (name, value));
        assert forall|m: Member| members.contains(m) && m.0 != name implies #[trigger] out.contains(
            m,
        ) by {
            let i = choose|i: int| 0 <= i < members.len() && members[i] == m;
            assert(out[i + 1] == m);
        }
    } else if members[0].0 == name {
        assert(out[0] == (name, value));
        assert forall|m: Member| members.contains(m) && m.0 != name implies #[trigger] out.contains(
            m,
        ) by {
            let i = choose|i: int| 0 <= i < members.len() && members[i] == m;
            assert(out[i] == m);
        }
    } else {
        let rest = members.skip(1);
        put_members_are_there(rest, name, value);
        let tail = put(rest, name, value);
        let k = choose|k: int| 0 <= k < tail.len() && tail[k] == (name, value);
        assert(out[k + 1] == (name, value));
        assert forall|m: Member| members.contains(m) && m.0 != name implies #[trigger] out.contains(
            m,
        ) by {
            let i = choose|i: int| 0 <= i < members.len() && members[i] == m;
            if i == 0 {
                assert(out[0] == m);
            } else {
                assert(rest[i - 1] == m);
                assert(rest.contains(m));
                assert(tail.contains(m));
                let j = choose|j: int| 0 <= j < tail.len() && tail[j] == m;
                assert(out[j + 1] == m);
            }
        }
    }
}

/// An object in JSON holds each of its members, with its name in quotes before its value.
pub proof fn members_are_written(members: Seq<Member>, m: Member)
    requires
        members.contains(m),
    ensures
        contains_text(object_text(members), seq!['"'] + json_inside(m.0) + seq!['"', ':'] + m.1),
{
    reveal_strlit(":");
    let part = seq!['"'] + json_inside(m.0) + seq!['"', ':'] + m.1;
    let items = members.map_values(|m: Member| json_quoted(m.0) + ":"@ + m.1);
    let i = choose|i: int| 0 <= i < members.len() && members[i] == m;
    assert(items[i] =~= part);
    joined_holds_its_parts(items, ","@, i);
    found_in_the_middle("{"@, joined(items, ","@), "}"@, part);
}

proof fn attr_members_hold(attrs: Seq<(Seq<char>, AttrView)>, k: int)
    requires
        0 <= k < attrs.len(),
        forall|j: int| k < j < attrs.len() ==> (#[trigger] attrs[j]).0 != attrs[k].0,
    ensures
        attr_members(attrs).contains((attrs[k].0, attr_json(attrs[k].1))),
    decreases attrs.len(),
{
    let before = attr_members(attrs.drop_last());
    put_members_are_there(before, attrs.last().0, attr_json(attrs.last().1));
    if k < attrs.len() - 1 {
        assert forall|j: int| k < j < attrs.drop_last().len() implies (
        #[trigger] attrs.drop_last()[j]).0 != attrs[k].0 by {
            assert(attrs.drop_last()[j] == attrs[j]);
        }
        attr_members_hold(attrs.drop_last(), k);
        assert(attrs.last() == attrs[attrs.len() - 1]);
        assert(before.contains((attrs[k].0, attr_json(attrs[k].1))));
    }
}

/// An element in JSON holds its attributes as members: a text in quotes, a number or a yes or
/// no bare. One whose name the text or a child takes as well is left out.
pub proof fn attributes_are_members(node: NodeView, k: int)
    requires
        0 <= k < node.attrs.len(),
        forall|j: int| k < j < node.attrs.len() ==> (#[trigger] node.attrs[j]).0 != node.attrs[k].0,
        node.text is Some ==> node.attrs[k].0 != "value"@,
        node.is_array ==> node.array_child_tag is Some && node.array_child_tag->0
            != node.attrs[k].0,
        !node.is_array ==> forall|j: int|
            0 <= j < node.children.len() ==> (#[trigger] node.children[j]).tag != node.attrs[k].0,
    ensures
        contains_text(
            node_json(node),
            seq!['"'] + json_inside(node.attrs[k].0) + seq!['"', ':'] + match node.attrs[k].1 {
                AttrView::Str(s) => seq!['"'] + json_inside(s) + seq!['"'],
                AttrView::Int(n) => decimal_int(n),
                AttrView::Bool(b) => if b {
                    "true"@
                } else {
                    "false"@
                },
            },
        ),
{
    let m = (node.attrs[k].0, attr_json(node.attrs[k].1));
    let attrs = attr_members(node.attrs);
    attr_members_hold(node.attrs, k);
    put_members_are_there(attrs, "value"@, json_quoted(node.text->0));
    let with_text = match node.text {
        Some(t) => put(attrs, "value"@, json_quoted(t)),
        None => attrs,
    };
    assert(with_text.contains(m));
    if node.is_array {
        let tag = node.array_child_tag->0;
        let kids = array_text(nodes_json(node.children));
        put_members_are_there(with_text, tag, kids);
        members_are_written(put(with_text, tag, kids), m);
    } else {
        let json = nodes_json(node.children);
        groups_keep(with_text, node.children, json, node.children.len(), m);
        members_are_written(with_groups(with_text, node.children, json, node.children.len()), m);
    }
}

proof fn groups_keep(
    members: Seq<Member>,
    nodes: Seq<NodeView>,
    json: Seq<Seq<char>>,
    n: nat,
    m: Member,
)
    requires
        n <= nodes.len(),
        members.contains(m),
        forall|j: int| 0 <= j < nodes.len() ==> (#[trigger] nodes[j]).tag != m.0,
    ensures
        with_groups(members, nodes, json, n).contains(m),
    decreases n,
{
    if n > 0 {
        groups_keep(members, nodes, json, (n - 1) as nat, m);
        let rest = with_groups(members, nodes, json, (n - 1) as nat);
        put_members_are_there(
            rest,
            nodes[n - 1].tag,
            one_or_array(with_tag(nodes, json, nodes[n - 1].tag, nodes.len())),
        );
        assert(nodes[n - 1].tag != m.0);
    }
}

/// An element in JSON holds each of its children: in an array where it is one for them, else
/// under their tag, in an array where several have it.
pub proof fn children_are_members(node: NodeView, k: int)
    requires
        0 <= k < node.children.len(),
    ensures
        contains_text(node_json(node), node_json(node.children[k])),
{
    let json = nodes_json(node.children);
    nodes_json_facts(node.children);
    let part = node_json(node.children[k]);
    assert(json[k] == part);
    let attrs = attr_members(node.attrs);
    let with_text = match node.text {
        Some(t) => put(attrs, "value"@, json_quoted(t)),
        None => attrs,
    };
    if node.is_array {
        let tag = match node.array_child_tag {
            Some(tag) => tag,
            None => "item"@,
        };
        items_are_in_arrays(json, k);
        put_members_are_there(with_text, tag, array_text(json));
        members_hold_their_value(put(with_text, tag, array_text(json)), (tag, array_text(json)), part);
    } else {
        let n = node.children.len();
        let f = first_with_tag(node.children, k);
        let tag = node.children[k].tag;
        let items = with_tag(node.children, json, tag, n);
        let value = one_or_array(items);
        groups_hold(with_text, node.children, json, n, f);
        tagged_are_held(node.children, json, tag, n, k);
        let i = choose|i: int| 0 <= i < items.len() && items[i] == part;
        items_are_in_arrays(items, i);
        if items.len() == 1 {
            assert(value =~= Seq::empty() + part + Seq::empty());
            texts_are_found_inside(value, part);
        }
        members_hold_their_value(
            with_groups(with_text, node.children, json, n),
            (tag, value),
            part,
        );
    }
}

proof fn items_are_in_arrays(items: Seq<Seq<char>>, k: int)
    requires
        0 <= k < items.len(),
    ensures
        contains_text(array_text(items), items[k]),
{
    joined_holds_its_parts(items, ","@, k);
    found_in_the_middle("["@, joined(items, ","@), "]"@, items[k]);
}

proof fn members_hold_their_value(members: Seq<Member>, m: Member, part: Seq<char>)
    requires
        members.contains(m),
        contains_text(m.1, part),
    ensures
        contains_text(object_text(members), part),
{
    members_are_written(members, m);
    let lead = seq!['"'] + json_inside(m.0) + seq!['"', ':'];
    found_in_the_middle(lead, m.1, Seq::empty(), part);
    assert(lead + m.1 + Seq::<char>::empty() =~= lead + m.1);
    texts_are_found_inside(object_text(members), lead + m.1);
    let (x, y) = choose|x: Seq<char>, y: Seq<char>|
        object_text(members) == #[trigger] (x + (lead + m.1) + y);
    found_in_the_middle(x, lead + m.1, y, part);
}

proof fn first_with_tag(nodes: Seq<NodeView>, k: int) -> (f: int)
    requires
        0 <= k < nodes.len(),
    ensures
        0 <= f <= k,
        nodes[f].tag == nodes[k].tag,
        first_of_tag(nodes, f),
    decreases k,
{
    if first_of_tag(nodes, k) {
        k
    } else {
        let j = choose|j: int| 0 <= j < k && (#[trigger] nodes[j]).tag == nodes[k].tag;
        first_with_tag(nodes, j)
    }
}

proof fn groups_hold(
    members: Seq<Member>,
    nodes: Seq<NodeView>,
    json: Seq<Seq<char>>,
    n: nat,
    f: int,
)
    requires
        0 <= f < n <= nodes.len(),
        first_of_tag(nodes, f),
    ensures
        with_groups(members, nodes, json, n).contains(
            (nodes[f].tag, one_or_array(with_tag(nodes, json, nodes[f].tag, nodes.len()))),
        ),
    decreases n,
{
    let rest = with_groups(members, nodes, json, (n - 1) as nat);
    let value = one_or_array(with_tag(nodes, json, nodes[n - 1].tag, nodes.len()));
    put_members_are_there(rest, nodes[n - 1].tag, value);
    if f < n - 1 {
        groups_hold(members, nodes, json, (n - 1) as nat, f);
        if first_of_tag(nodes, n - 1) {
            assert(nodes[f].tag != nodes[n - 1].tag);
        }
    }
}

proof fn tagged_are_held(
    nodes: Seq<NodeView>,
    json: Seq<Seq<char>>,
    tag: Seq<char>,
    n: nat,
    k: int,
)
    requires
        0 <= k < n <= nodes.len(),
        json.len() == nodes.len(),
        nodes[k].tag == tag,
    ensures
        with_tag(nodes, json, tag, n).contains(json[k]),
    decreases n,
{
    let rest = with_tag(nodes, json, tag, (n - 1) as nat);
    let all = with_tag(nodes, json, tag, n);
    if k == n - 1 {
        assert(all[all.len() - 1] == json[k]);
    } else {
        tagged_are_held(nodes, json, tag, (n - 1) as nat, k);
        let i = choose|i: int| 0 <= i < rest.len() && rest[i] == json[k];
        assert(all[i] == json[k]);
    }
}

/// A document in JSON says that all went well and holds the last element of each tag, or says
/// that it failed and holds the code and the message.
pub proof fn json_documents_hold_their_answer(
    nodes: Seq<NodeView>,
    k: int,
    code: int,
    message: Seq<char>,
)
    requires
        0 <= k < nodes.len(),
        forall|j: int| k < j < nodes.len() ==> (#[trigger] nodes[j]).tag != nodes[k].tag,
        forall|j: int| 0 <= j < nodes.len() ==> (#[trigger] nodes[j]).tag != "status"@,
    ensures
        contains_text(
            ok_json(nodes),
            seq!['"'] + json_inside(nodes[k].tag) + seq!['"', ':'] + node_json(nodes[k]),
        ),
        contains_text(
            ok_json(nodes),
            seq!['"'] + json_inside("status"@) + seq!['"', ':'] + json_quoted("ok"@),
        ),
        contains_text(
            error_json(code, message),
            seq!['"'] + json_inside("status"@) + seq!['"', ':'] + json_quoted("failed"@),
        ),
        contains_text(
            error_json(code, message),
            seq!['"'] + json_inside("code"@) + seq!['"', ':'] + decimal_int(code),
        ),
        contains_text(
            error_json(code, message),
            seq!['"'] + json_inside("message"@) + seq!['"', ':'] + json_quoted(message),
        ),
{
    reveal_strlit("status");
    reveal_strlit("version");
    reveal_strlit("error");
    reveal_strlit("code");
    reveal_strlit("message");
    let good = head_members("ok"@);
    head_says(Seq::empty(), "ok"@);
    nodes_are_members(good, nodes, k);
    status_stays(good, nodes, ("status"@, json_quoted("ok"@)));
    let members = with_nodes(good, nodes);
    members_are_written(members, (nodes[k].tag, node_json(nodes[k])));
    members_are_written(members, ("status"@, json_quoted("ok"@)));
    answers_are_wrapped(members, seq!['"'] + json_inside(nodes[k].tag) + seq!['"', ':'] + node_json(nodes[k]));
    answers_are_wrapped(members, seq!['"'] + json_inside("status"@) + seq!['"', ':'] + json_quoted("ok"@));
    let bad = head_members("failed"@);
    head_says(Seq::empty(), "failed"@);
    let first = put(Seq::empty(), "code"@, decimal_int(code));
    let inside = put(first, "message"@, json_quoted(message));
    put_members_are_there(Seq::empty(), "code"@, decimal_int(code));
    put_members_are_there(first, "message"@, json_quoted(message));
    assert("code"@.len() != "message"@.len());
    members_are_written(inside, ("code"@, decimal_int(code)));
    members_are_written(inside, ("message"@, json_quoted(message)));
    let all = put(bad, "error"@, object_text(inside));
    put_members_are_there(bad, "error"@, object_text(inside));
    assert("status"@.len() != "error"@.len());
    let m = ("error"@, object_text(inside));
    let code_part = seq!['"'] + json_inside("code"@) + seq!['"', ':'] + decimal_int(code);
    let message_part = seq!['"'] + json_inside("message"@) + seq!['"', ':'] + json_quoted(message);
    members_hold_their_value(all, m, code_part);
    members_hold_their_value(all, m, message_part);
    members_are_written(all, ("status"@, json_quoted("failed"@)));
    answers_are_wrapped(all, code_part);
    answers_are_wrapped(all, message_part);
    answers_are_wrapped(all, seq!['"'] + json_inside("status"@) + seq!['"', ':'] + json_quoted("failed"@));
}

proof fn head_says(none: Seq<Member>, status: Seq<char>)
    requires
        none.len() == 0,
    ensures
        head_members(status).contains(("status"@, json_quoted(status))),
{
    reveal_strlit("status");
    reveal_strlit("version");
    let first = put(Seq::empty(), "status"@, json_quoted(status));
    put_members_are_there(Seq::empty(), "status"@, json_quoted(status));
    put_members_are_there(first, "version"@, json_quoted(api_version()));
    assert("status"@.len() != "version"@.len());
}

proof fn nodes_are_members(members: Seq<Member>, nodes: Seq<NodeView>, k: int)
    requires
        0 <= k < nodes.len(),
        forall|j: int| k < j < nodes.len() ==> (#[trigger] nodes[j]).tag != nodes[k].tag,
    ensures
        with_nodes(members, nodes).contains((nodes[k].tag, node_json(nodes[k]))),
    decreases nodes.len(),
{
    let rest = with_nodes(members, nodes.drop_last());
    put_members_are_there(rest, nodes.last().tag, node_json(nodes.last()));
    if k < nodes.len() - 1 {
        assert forall|j: int| k < j < nodes.drop_last().len() implies (
        #[trigger] nodes.drop_last()[j]).tag != nodes[k].tag by {
            assert(nodes.drop_last()[j] == nodes[j]);
        }
        nodes_are_members(members, nodes.drop_last(), k);
        assert(nodes.last() == nodes[nodes.len() - 1]);
        assert(rest.contains((nodes[k].tag, node_json(nodes[k]))));
    }
}

proof fn status_stays(members: Seq<Member>, nodes: Seq<NodeView>, m: Member)
    requires
        members.contains(m),
        forall|j: int| 0 <= j < nodes.len() ==> (#[trigger] nodes[j]).tag != m.0,
    ensures
        with_nodes(members, nodes).contains(m),
    decreases nodes.len(),
{
    if nodes.len() > 0 {
        assert forall|j: int| 0 <= j < nodes.drop_last().len() implies (
        #[trigger] nodes.drop_last()[j]).tag != m.0 by {
            assert(nodes.drop_last()[j] == nodes[j]);
        }
        status_stays(members, nodes.drop_last(), m);
        let rest = with_nodes(members, nodes.drop_last());
        put_members_are_there(rest, nodes.last().tag, node_json(nodes.last()));
        assert(nodes.last() == nodes[nodes.len() - 1]);
    }
}

proof fn answers_are_wrapped(members: Seq<Member>, part: Seq<char>)
    requires
        contains_text(object_text(members), part),
    ensures
        contains_text(response_json(members), part),
{
    let outer = seq![("subsonic-response"@, object_text(members))];
    assert(outer[0] == ("subsonic-response"@, object_text(members)));
    members_hold_their_value(outer, outer[0], part);
}

/// Elements are set in by two spaces for each level.
pub proof fn levels_are_set_in(indent: nat)
    ensures
        padding(indent).len() == 2 * indent,
        forall|i: int| 0 <= i < padding(indent).len() ==> #[trigger] padding(indent)[i] == ' ',
    decreases indent,
{
    reveal_strlit("  ");
    if indent > 0 {
        levels_are_set_in((indent - 1) as nat);
    }
}

/// An answer is in the form that is asked for, and tells whether it is an error.
pub proof fn answers_have_the_form_asked_for(nodes: Seq<NodeView>, e: SubsonicError)
    ensures
        ok_body(true, nodes) == ok_json(nodes),
        ok_body(false, nodes) == ok_xml(nodes),
        error_body(true, e) == error_json(code_number(e.code), e.message@),
        error_body(false, e) == error_xml(code_number(e.code), e.message@),
{
}

/// A document has the type of its form, and its body.
pub proof fn documents_have_their_type(d: Document, json: bool, body: Seq<char>)
    requires
        d.is(json, body),
    ensures
        json ==> d.content_type@ == "application/json; charset=utf-8"@,
        !json ==> d.content_type@ == "application/xml; charset=utf-8"@,
        d.body@ == body,
{
}

/// Attributes and children are put behind those that are there, each as it is.
pub proof fn elements_grow_at_their_end(n: NodeView, key: Seq<char>, value: Seq<char>, child: NodeView)
    ensures
        n.attr(key, value).attrs == n.attrs + seq![(key, AttrView::Str(value))],
        n.attr_opt(key, None) == n,
        n.attr_opt(key, Some(value)) == n.attr(key, value),
        n.child(child).children == n.children + seq![child],
        n.child(child).attrs == n.attrs,
        n.attr(key, value).children == n.children,
        n.with_text(value).text == Some(value),
        n.array_of(key).array_child_tag == Some(key) && n.array_of(key).is_array,
{
    assert(n.attr(key, value).attrs =~= n.attrs + seq![(key, AttrView::Str(value))]);
    assert(n.child(child).children =~= n.children + seq![child]);
}

/// An element in XML is closed: by its tag where it holds anything, else at once.
pub proof fn elements_are_closed(node: NodeView, indent: nat)
    ensures
        node.children.len() > 0 || node.text is Some ==> ends_with(
            node_xml(node, indent),
            "</"@ + node.tag + ">"@,
        ),
        node.children.len() == 0 && node.text is None ==> node_xml(node, indent) == padding(indent)
            + "<"@ + node.tag + attrs_xml(node.attrs) + "/>"@,
{
    let all = node_xml(node, indent);
    let tail = "</"@ + node.tag + ">"@;
    if node.children.len() > 0 || node.text is Some {
        assert(all.skip(all.len() - tail.len()) =~= tail);
    }
}

/// Children in JSON are each written as they are, in their order.
pub proof fn children_are_listed_in_order(nodes: Seq<NodeView>, i: int)
    requires
        0 <= i < nodes.len(),
    ensures
        nodes_json(nodes).len() == nodes.len(),
        nodes_json(nodes)[i] == node_json(nodes[i]),
        array_text(nodes_json(nodes)) == "["@ + joined(nodes_json(nodes), ","@) + "]"@,
{
    nodes_json_facts(nodes);
}

/// What is written of the node at a place, if it has a tag.
pub open spec fn if_tagged(
    nodes: Seq<NodeView>,
    json: Seq<Seq<char>>,
    tag: Seq<char>,
) -> spec_fn(int) -> Option<Seq<char>> {
    |k: int|
        if nodes[k].tag == tag {
            Some(json[k])
        } else {
            None
        }
}

/// Children of one tag are gathered in their order, and alone stand without an array.
pub proof fn tags_are_gathered_in_order(
    nodes: Seq<NodeView>,
    json: Seq<Seq<char>>,
    tag: Seq<char>,
    n: nat,
)
    requires
        n <= nodes.len(),
    ensures
        collects(
            Seq::new(n, |k: int| k),
            if_tagged(nodes, json, tag),
            with_tag(nodes, json, tag, n),
        ),
        with_tag(nodes, json, tag, n).len() == 1 ==> one_or_array(with_tag(nodes, json, tag, n))
            == with_tag(nodes, json, tag, n)[0],
        with_tag(nodes, json, tag, n).len() != 1 ==> one_or_array(with_tag(nodes, json, tag, n))
            == array_text(with_tag(nodes, json, tag, n)),
    decreases n,
{
    let places = Seq::new(n, |k: int| k);
    let f = if_tagged(nodes, json, tag);
    if n == 0 {
        collects_none(places, f, with_tag(nodes, json, tag, n));
    } else {
        tags_are_gathered_in_order(nodes, json, tag, (n - 1) as nat);
        assert(places.drop_last() =~= Seq::new((n - 1) as nat, |k: int| k));
        collects_push(places, f, with_tag(nodes, json, tag, (n - 1) as nat));
    }
}

} // verus!
