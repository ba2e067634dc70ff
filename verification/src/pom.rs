//! Parsing of remote metadata documents (project descriptors).
//!
//! A descriptor arrives as a stream of structural markup events
//! (element-open, element-close, text). A small state machine tracks whether
//! the stream is currently inside a `dependency`, `properties`, or `parent`
//! element, so that same-named tags (`version`, `groupId`, ...) land in the
//! right place. A dependency is kept only when its closing tag is reached
//! with group, artifact, and version all non-empty; partial entries are
//! dropped. Group and version text inside a dependency pass through
//! placeholder expansion using the properties collected so far.

use quick_xml::escape::unescape;
use quick_xml::events::Event;
use quick_xml::reader::Reader;
use vstd::prelude::*;

use crate::props::{spec_insert, spec_resolve, unique_keys, Properties, MAX_EXPANSION_PASSES};
use crate::text::str_eq_chars;
use crate::text::str_to_chars;

verus! {

/// One structural event of a metadata document: an opening tag, a closing
/// tag, a text node, or the point at which the document stopped being
/// parsable markup.
pub enum XmlEvent {
    Open(String),
    Close(String),
    Text(String),
    Malformed,
}

/// The mathematical value of an [`XmlEvent`].
pub enum EvView {
    Open(Seq<char>),
    Close(Seq<char>),
    Text(Seq<char>),
    Malformed,
}

impl View for XmlEvent {
    type V = EvView;

    open spec fn view(&self) -> EvView {
        match self {
            XmlEvent::Open(t) => EvView::Open(t@),
            XmlEvent::Close(t) => EvView::Close(t@),
            XmlEvent::Text(t) => EvView::Text(t@),
            XmlEvent::Malformed => EvView::Malformed,
        }
    }
}

/// One declared dependency of a descriptor: a coordinate plus the scope tag
/// and optional marker that control transitive traversal.
pub struct PomDependency {
    pub group_id: String,
    pub artifact_id: String,
    pub version: String,
    pub scope: Option<String>,
    pub optional: bool,
}

/// The mathematical value of a [`PomDependency`].
#[verifier::ext_equal]
pub struct DepView {
    pub group_id: Seq<char>,
    pub artifact_id: Seq<char>,
    pub version: Seq<char>,
    pub scope: Option<Seq<char>>,
    pub optional: bool,
}

impl View for PomDependency {
    type V = DepView;

    open spec fn view(&self) -> DepView {
        DepView {
            group_id: self.group_id@,
            artifact_id: self.artifact_id@,
            version: self.version@,
            scope: match self.scope {
                Some(ref s) => Some(s@),
                None => None,
            },
            optional: self.optional,
        }
    }
}

/// The parent coordinate a descriptor may declare, from which absent group
/// and version fall back.
pub struct ParentPom {
    pub group_id: String,
    pub artifact_id: String,
    pub version: String,
}

/// The mathematical value of a [`ParentPom`].
#[verifier::ext_equal]
pub struct ParentView {
    pub group_id: Seq<char>,
    pub artifact_id: Seq<char>,
    pub version: Seq<char>,
}

impl View for ParentPom {
    type V = ParentView;

    open spec fn view(&self) -> ParentView {
        ParentView {
            group_id: self.group_id@,
            artifact_id: self.artifact_id@,
            version: self.version@,
        }
    }
}

/// A parsed metadata document: self coordinate (group and version possibly
/// inherited from the parent), property table, declared dependencies, and
/// the parent coordinate when one was declared.
pub struct PomModel {
    pub group_id: Option<String>,
    pub artifact_id: String,
    pub version: Option<String>,
    pub properties: Properties,
    pub dependencies: Vec<PomDependency>,
    pub parent: Option<ParentPom>,
}

/// The mathematical value of a [`PomModel`].
#[verifier::ext_equal]
pub struct PomView {
    pub group_id: Option<Seq<char>>,
    pub artifact_id: Seq<char>,
    pub version: Option<Seq<char>>,
    pub properties: Seq<(Seq<char>, Seq<char>)>,
    pub dependencies: Seq<DepView>,
    pub parent: Option<ParentView>,
}

impl View for PomModel {
    type V = PomView;

    open spec fn view(&self) -> PomView {
        PomView {
            group_id: match self.group_id {
                Some(ref s) => Some(s@),
                None => None,
            },
            artifact_id: self.artifact_id@,
            version: match self.version {
                Some(ref s) => Some(s@),
                None => None,
            },
            properties: self.properties@,
            dependencies: self.dependencies@.map_values(|d: PomDependency| d@),
            parent: match self.parent {
                Some(ref p) => Some(p@),
                None => None,
            },
        }
    }
}

/// Whether a text value names the boolean true, compared without regard to
/// ASCII case.
pub open spec fn spec_is_true_literal(v: Seq<char>) -> bool {
    &&& v.len() == 4
    &&& (v[0] == 't' || v[0] == 'T')
    &&& (v[1] == 'r' || v[1] == 'R')
    &&& (v[2] == 'u' || v[2] == 'U')
    &&& (v[3] == 'e' || v[3] == 'E')
}

/// The parser's running state between two events.
#[verifier::ext_equal]
pub struct ParseState {
    pub cur_tag: Seq<char>,
    pub in_dependency: bool,
    pub in_properties: bool,
    pub in_parent: bool,
    pub dep: DepView,
    pub props: Seq<(Seq<char>, Seq<char>)>,
    pub deps: Seq<DepView>,
    pub parent: ParentView,
    pub artifact_id: Seq<char>,
    pub group_id: Option<Seq<char>>,
    pub version: Option<Seq<char>>,
    pub malformed: bool,
}

/// A dependency record with every field empty.
pub open spec fn empty_dep() -> DepView {
    DepView {
        group_id: Seq::empty(),
        artifact_id: Seq::empty(),
        version: Seq::empty(),
        scope: None,
        optional: false,
    }
}

/// The parser's state before any event.
pub open spec fn init_state() -> ParseState {
    ParseState {
        cur_tag: Seq::empty(),
        in_dependency: false,
        in_properties: false,
        in_parent: false,
        dep: empty_dep(),
        props: Seq::empty(),
        deps: Seq::empty(),
        parent: ParentView {
            group_id: Seq::empty(),
            artifact_id: Seq::empty(),
            version: Seq::empty(),
        },
        artifact_id: Seq::empty(),
        group_id: None,
        version: None,
        malformed: false,
    }
}

/// How one event advances the parser's state.
pub open spec fn spec_step(st: ParseState, ev: EvView) -> ParseState {
    match ev {
        EvView::Open(tag) => {
            if tag == "dependency"@ {
                ParseState { in_dependency: true, dep: empty_dep(), ..st }
            } else if tag == "properties"@ {
                ParseState { in_properties: true, ..st }
            } else if tag == "parent"@ {
                ParseState { in_parent: true, ..st }
            } else {
                ParseState { cur_tag: tag, ..st }
            }
        },
        EvView::Close(tag) => {
            let st2 = if tag == "dependency"@ {
                let keep = st.dep.group_id.len() > 0 && st.dep.artifact_id.len() > 0
                    && st.dep.version.len() > 0;
                ParseState {
                    in_dependency: false,
                    deps: if keep {
                        st.deps.push(st.dep)
                    } else {
                        st.deps
                    },
                    ..st
                }
            } else if tag == "properties"@ {
                ParseState { in_properties: false, ..st }
            } else if tag == "parent"@ {
                ParseState { in_parent: false, ..st }
            } else {
                st
            };
            ParseState { cur_tag: Seq::empty(), ..st2 }
        },
        EvView::Text(v) => {
            if st.in_properties {
                ParseState { props: spec_insert(st.props, st.cur_tag, v), ..st }
            } else if st.in_parent {
                if st.cur_tag == "groupId"@ {
                    ParseState { parent: ParentView { group_id: v, ..st.parent }, ..st }
                } else if st.cur_tag == "artifactId"@ {
                    ParseState { parent: ParentView { artifact_id: v, ..st.parent }, ..st }
                } else if st.cur_tag == "version"@ {
                    ParseState { parent: ParentView { version: v, ..st.parent }, ..st }
                } else {
                    st
                }
            } else if st.in_dependency {
                if st.cur_tag == "groupId"@ {
                    ParseState {
                        dep: DepView {
                            group_id: spec_resolve(v, st.props, MAX_EXPANSION_PASSES as nat),
                            ..st.dep
                        },
                        ..st
                    }
                } else if st.cur_tag == "artifactId"@ {
                    ParseState {
                        dep: DepView {
                            artifact_id: spec_resolve(v, st.props, MAX_EXPANSION_PASSES as nat),
                            ..st.dep
                        },
                        ..st
                    }
                } else if st.cur_tag == "version"@ {
                    ParseState {
                        dep: DepView {
                            version: spec_resolve(v, st.props, MAX_EXPANSION_PASSES as nat),
                            ..st.dep
                        },
                        ..st
                    }
                } else if st.cur_tag == "scope"@ {
                    ParseState { dep: DepView { scope: Some(v), ..st.dep }, ..st }
                } else if st.cur_tag == "optional"@ {
                    ParseState { dep: DepView { optional: spec_is_true_literal(v), ..st.dep }, ..st }
                } else {
                    st
                }
            } else {
                if st.cur_tag == "artifactId"@ {
                    ParseState { artifact_id: v, ..st }
                } else if st.cur_tag == "groupId"@ {
                    ParseState { group_id: Some(v), ..st }
                } else if st.cur_tag == "version"@ {
                    ParseState { version: Some(v), ..st }
                } else {
                    st
                }
            }
        },
        EvView::Malformed => ParseState { malformed: true, ..st },
    }
}

/// The parser's state after a whole event stream.
pub open spec fn spec_run(events: Seq<EvView>) -> ParseState
    decreases events.len(),
{
    if events.len() == 0 {
        init_state()
    } else {
        spec_step(spec_run(events.drop_last()), events.last())
    }
}

/// The document value a finished parse yields: group and version fall back
/// to the parent's when absent, and the parent is kept only when its group
/// was given.
pub open spec fn spec_complete(st: ParseState) -> PomView {
    PomView {
        group_id: match st.group_id {
            Some(g) => Some(g),
            None => if st.parent.group_id.len() > 0 {
                Some(st.parent.group_id)
            } else {
                None
            },
        },
        artifact_id: st.artifact_id,
        version: match st.version {
            Some(v) => Some(v),
            None => if st.parent.version.len() > 0 {
                Some(st.parent.version)
            } else {
                None
            },
        },
        properties: st.props,
        dependencies: st.deps,
        parent: if st.parent.group_id.len() > 0 {
            Some(st.parent)
        } else {
            None
        },
    }
}

/// The parse of an event stream: the completed document, or an error when
/// the stream ended in unparsable markup.
pub open spec fn spec_parse_pom(events: Seq<EvView>) -> Result<PomView, PomSyntaxError> {
    let st = spec_run(events);
    if st.malformed {
        Err(PomSyntaxError {})
    } else {
        Ok(spec_complete(st))
    }
}

/// Unparsable markup: the document's resolution branch fails.
#[derive(PartialEq, Eq, Structural, Clone, Copy, Debug)]
pub struct PomSyntaxError {}

/// The parser's running state, with the table of properties collected so
/// far.
struct PomBuilder {
    cur_tag: String,
    in_dependency: bool,
    in_properties: bool,
    in_parent: bool,
    dep: PomDependency,
    props: Properties,
    deps: Vec<PomDependency>,
    parent: ParentPom,
    artifact_id: String,
    group_id: Option<String>,
    version: Option<String>,
    malformed: bool,
}

impl View for PomBuilder {
    type V = ParseState;

    closed spec fn view(&self) -> ParseState {
        ParseState {
            cur_tag: self.cur_tag@,
            in_dependency: self.in_dependency,
            in_properties: self.in_properties,
            in_parent: self.in_parent,
            dep: self.dep@,
            props: self.props@,
            deps: self.deps@.map_values(|d: PomDependency| d@),
            parent: self.parent@,
            artifact_id: self.artifact_id@,
            group_id: match self.group_id {
                Some(ref s) => Some(s@),
                None => None,
            },
            version: match self.version {
                Some(ref s) => Some(s@),
                None => None,
            },
            malformed: self.malformed,
        }
    }
}

/// An empty dependency record.
fn new_dep() -> (r: PomDependency)
    ensures
        r@ == empty_dep(),
{
    let r = PomDependency {
        group_id: String::new(),
        artifact_id: String::new(),
        version: String::new(),
        scope: None,
        optional: false,
    };
    assert(r@ =~= empty_dep());
    r
}

/// The parser state before any event.
fn new_builder() -> (r: PomBuilder)
    ensures
        r@ == init_state(),
        unique_keys(r@.props),
{
    let r = PomBuilder {
        cur_tag: String::new(),
        in_dependency: false,
        in_properties: false,
        in_parent: false,
        dep: new_dep(),
        props: Properties::new(),
        deps: Vec::new(),
        parent: ParentPom {
            group_id: String::new(),
            artifact_id: String::new(),
            version: String::new(),
        },
        artifact_id: String::new(),
        group_id: None,
        version: None,
        malformed: false,
    };
    assert(r@.deps =~= init_state().deps);
    assert(r@ =~= init_state());
    r
}

/// Whether a text value names the boolean true, without regard to ASCII
/// case.
fn is_true_literal(v: &str) -> (r: bool)
    ensures
        r == spec_is_true_literal(v@),
{
    let n = v.unicode_len();
    if n != 4 {
        return false;
    }
    let c0 = v.get_char(0);
    let c1 = v.get_char(1);
    let c2 = v.get_char(2);
    let c3 = v.get_char(3);
    (c0 == 't' || c0 == 'T') && (c1 == 'r' || c1 == 'R') && (c2 == 'u' || c2 == 'U') && (c3 == 'e'
        || c3 == 'E')
}

impl PomBuilder {
    /// Advances the parser by one event.
    fn apply_event(&mut self, ev: &XmlEvent)
        requires
            unique_keys(old(self)@.props),
        ensures
            final(self)@ == spec_step(old(self)@, ev@),
            unique_keys(final(self)@.props),
    {
        match ev {
            XmlEvent::Open(tag) => {
                let tc = str_to_chars(tag.as_str());
                let tag = tag.clone();
                if str_eq_chars("dependency", &tc) {
                    self.in_dependency = true;
                    self.dep = new_dep();
                } else if str_eq_chars("properties", &tc) {
                    self.in_properties = true;
                } else if str_eq_chars("parent", &tc) {
                    self.in_parent = true;
                } else {
                    self.cur_tag = tag;
                }
                assert(self@ =~= spec_step(old(self)@, ev@));
            },
            XmlEvent::Close(tag) => {
                let tc = str_to_chars(tag.as_str());
                if str_eq_chars("dependency", &tc) {
                    let keep = self.dep.group_id.unicode_len() > 0
                        && self.dep.artifact_id.unicode_len() > 0
                        && self.dep.version.unicode_len() > 0;
                    if keep {
                        let done = PomDependency {
                            group_id: self.dep.group_id.clone(),
                            artifact_id: self.dep.artifact_id.clone(),
                            version: self.dep.version.clone(),
                            scope: match &self.dep.scope {
                                Some(sc) => Some(sc.clone()),
                                None => None,
                            },
                            optional: self.dep.optional,
                        };
                        assert(done@ =~= self.dep@);
                        let ghost prev = self.deps@.map_values(|d: PomDependency| d@);
                        self.deps.push(done);
                        assert(self.deps@.map_values(|d: PomDependency| d@) =~= prev.push(done@));
                        assert(spec_step(old(self)@, ev@).deps == old(self)@.deps.push(
                            old(self)@.dep,
                        ));
                    }
                    self.in_dependency = false;
                } else if str_eq_chars("properties", &tc) {
                    self.in_properties = false;
                } else if str_eq_chars("parent", &tc) {
                    self.in_parent = false;
                }
                self.cur_tag = String::new();
                assert(self@ =~= spec_step(old(self)@, ev@));
            },
            XmlEvent::Text(v) => {
                let ct = str_to_chars(self.cur_tag.as_str());
                let v = v.clone();
                if self.in_properties {
                    let key = self.cur_tag.clone();
                    self.props.insert(key, v);
                } else if self.in_parent {
                    if str_eq_chars("groupId", &ct) {
                        self.parent.group_id = v;
                    } else if str_eq_chars("artifactId", &ct) {
                        self.parent.artifact_id = v;
                    } else if str_eq_chars("version", &ct) {
                        self.parent.version = v;
                    }
                } else if self.in_dependency {
                    if str_eq_chars("groupId", &ct) {
                        self.dep.group_id = crate::props::resolve_placeholders(
                            v.as_str(),
                            &self.props,
                        );
                    } else if str_eq_chars("artifactId", &ct) {
                        self.dep.artifact_id = crate::props::resolve_placeholders(
                            v.as_str(),
                            &self.props,
                        );
                    } else if str_eq_chars("version", &ct) {
                        self.dep.version = crate::props::resolve_placeholders(
                            v.as_str(),
                            &self.props,
                        );
                    } else if str_eq_chars("scope", &ct) {
                        self.dep.scope = Some(v);
                    } else if str_eq_chars("optional", &ct) {
                        self.dep.optional = is_true_literal(v.as_str());
                    }
                } else {
                    if str_eq_chars("artifactId", &ct) {
                        self.artifact_id = v;
                    } else if str_eq_chars("groupId", &ct) {
                        self.group_id = Some(v);
                    } else if str_eq_chars("version", &ct) {
                        self.version = Some(v);
                    }
                }
                assert(self@ =~= spec_step(old(self)@, ev@));
            },
            XmlEvent::Malformed => {
                self.malformed = true;
                assert(self@ =~= spec_step(old(self)@, ev@));
            },
        }
    }
}

/// Parses a descriptor's event stream into a document model, or reports the
/// stream as unparsable markup.
pub fn parse_pom_events(events: &Vec<XmlEvent>) -> (r: Result<PomModel, PomSyntaxError>)
    ensures
        match r {
            Ok(m) => spec_parse_pom(events@.map_values(|e: XmlEvent| e@)) == Ok::<
                PomView,
                PomSyntaxError,
            >(m@),
            Err(e) => spec_parse_pom(events@.map_values(|e: XmlEvent| e@)) == Err::<
                PomView,
                PomSyntaxError,
            >(e),
        },
{
    let ghost evs = events@.map_values(|e: XmlEvent| e@);
    let mut b = new_builder();
    let n = events.len();
    let mut i: usize = 0;
    assert(evs.take(0) =~= Seq::<EvView>::empty());
    while i < n
        invariant
            n == events@.len(),
            evs == events@.map_values(|e: XmlEvent| e@),
            i <= n,
            b@ == spec_run(evs.take(i as int)),
            unique_keys(b@.props),
        decreases n - i,
    {
        b.apply_event(&events[i]);
        i = i + 1;
        proof {
            assert(evs.take(i as int).drop_last() =~= evs.take(i - 1));
            assert(evs.take(i as int).last() == evs[i - 1]);
        }
    }
    assert(evs.take(n as int) =~= evs);
    if b.malformed {
        Err(PomSyntaxError {})
    } else {
        let model = PomModel {
            group_id: match b.group_id {
                Some(g) => Some(g),
                None => {
                    if b.parent.group_id.unicode_len() > 0 {
                        Some(b.parent.group_id.clone())
                    } else {
                        None
                    }
                },
            },
            artifact_id: b.artifact_id,
            version: match b.version {
                Some(v) => Some(v),
                None => {
                    if b.parent.version.unicode_len() > 0 {
                        Some(b.parent.version.clone())
                    } else {
                        None
                    }
                },
            },
            properties: b.props,
            dependencies: b.deps,
            parent: if b.parent.group_id.unicode_len() > 0 {
                Some(b.parent)
            } else {
                None
            },
        };
        assert(model@ =~= spec_complete(spec_run(evs)));
        Ok(model)
    }
}

/// The structural events that the markup reader yields for a document's
/// bytes: a function of the bytes alone.
pub uninterp spec fn xml_events_of(doc: Seq<u8>) -> Seq<EvView>;

/// Relies on quick_xml's `Reader` over a byte slice: yields the document's
/// element-open, element-close, and text events in order, with surrounding
/// whitespace trimmed and markup escapes undone, stopping at end of input or
/// at the first unparsable markup, which is reported as one final
/// `Malformed` event.
#[verifier::external_body]
fn read_xml_events(doc: &[u8]) -> (r: Vec<XmlEvent>)
    ensures
        r@.map_values(|e: XmlEvent| e@) == xml_events_of(doc@),
{
    let mut reader = Reader::from_reader(doc);
    reader.config_mut().trim_text(true);
    let mut out: Vec<XmlEvent> = Vec::new();
    loop {
        match reader.read_event() {
            Ok(Event::Start(e)) => out.push(XmlEvent::Open(e.name().as_ref().to_string())),
            Ok(Event::End(e)) => out.push(XmlEvent::Close(e.name().as_ref().to_string())),
            Ok(Event::Text(e)) => out.push(XmlEvent::Text(unescape(&e.into_inner()).map(|v| v.into_owned()).unwrap_or_default())),
            Ok(Event::Eof) => return out,
            Ok(_) => (),
            Err(_) => { out.push(XmlEvent::Malformed); return out; },
        }
    }
}

/// Parses the bytes of a metadata document into a document model, or
/// reports it as unparsable markup.
pub fn parse_pom_model(doc: &[u8]) -> (r: Result<PomModel, PomSyntaxError>)
    ensures
        match r {
            Ok(m) => spec_parse_pom(xml_events_of(doc@)) == Ok::<PomView, PomSyntaxError>(m@),
            Err(e) => spec_parse_pom(xml_events_of(doc@)) == Err::<PomView, PomSyntaxError>(e),
        },
{
    let events = read_xml_events(doc);
    parse_pom_events(&events)
}

} // verus!
