//! The `<response>` records of a WebDAV multistatus answer, built from the
//! reader's tokens, and what calendar discovery and calendar queries read
//! from them.
use crate::caldav::{parse_ics_event, parse_ics_event_spec, RemoteCalendarEvent};
use crate::caldav_sync::{resolve_url, url_join_result, CalDavCalendar};
use crate::caldav_xml::{
    decode_xml_general_ref, decode_xml_general_ref_spec, decode_xml_text, has_attribute_spec,
    is_xml_space, local_name_spec, name_len_spec, read_raw_event, start_attribute_bytes,
    start_has_case_insensitive_attribute, utf8_lossy, utf8_lossy_spec, xml_attributes_result,
    xml_cursor, xml_decode_result, xml_event_result, xml_local_name, xml_name_len, RawEventView,
    RawXmlEvent,
};
use crate::text::{push_char, push_str, str_to_chars, trim, trim_is_empty, trim_spec};
use vstd::prelude::*;
use vstd::string::*;

verus! {

/// A text found under a response, with the local name of the element that
/// holds it and the indexes (in the response's tag list) of the elements
/// around it.
#[derive(Debug)]
pub struct CalDavXmlText {
    pub local_name: String,
    pub ancestors: Vec<usize>,
    pub text: String,
}

/// A `<response>` element: the local names of the tags inside it, in order,
/// the texts under them, and whether it declared support for `VEVENT`.
#[derive(Debug)]
pub struct CalDavXmlResponse {
    pub tags: Vec<String>,
    pub texts: Vec<CalDavXmlText>,
    pub has_vevent_support: bool,
}

/// An open element while reading: its local name and, inside a response,
/// its index in the response's tag list.
#[derive(Debug)]
pub struct CalDavXmlStackEntry {
    pub local_name: String,
    pub tag_index: Option<usize>,
}

/// A token of the answer, as the records are built from it.
#[derive(Debug)]
pub enum XmlToken {
    /// An element opens (`is_empty` when it also closes at once);
    /// `vevent_component` when it is a `comp` element named `VEVENT`.
    Start { local_name: String, vevent_component: bool, is_empty: bool },
    /// An element closes.
    End { local_name: String },
    /// Text, with references already decoded.
    Text(String),
}

/// A token as a value of the specification.
pub enum TokenView {
    Start { local_name: Seq<char>, vevent_component: bool, is_empty: bool },
    End { local_name: Seq<char> },
    Text(Seq<char>),
}

impl View for XmlToken {
    type V = TokenView;

    open spec fn view(&self) -> TokenView {
        match self {
            XmlToken::Start { local_name, vevent_component, is_empty } => TokenView::Start {
                local_name: local_name@,
                vevent_component: *vevent_component,
                is_empty: *is_empty,
            },
            XmlToken::End { local_name } => TokenView::End { local_name: local_name@ },
            XmlToken::Text(t) => TokenView::Text(t@),
        }
    }
}

pub open spec fn tokens_view(v: Seq<XmlToken>) -> Seq<TokenView> {
    v.map_values(|t: XmlToken| t@)
}

pub struct TextView {
    pub local_name: Seq<char>,
    pub ancestors: Seq<usize>,
    pub text: Seq<char>,
}

pub struct ResponseView {
    pub tags: Seq<Seq<char>>,
    pub texts: Seq<TextView>,
    pub vevent: bool,
}

impl View for CalDavXmlText {
    type V = TextView;

    open spec fn view(&self) -> TextView {
        TextView { local_name: self.local_name@, ancestors: self.ancestors@, text: self.text@ }
    }
}

pub open spec fn texts_view(v: Seq<CalDavXmlText>) -> Seq<TextView> {
    v.map_values(|t: CalDavXmlText| t@)
}

pub open spec fn names_view(v: Seq<String>) -> Seq<Seq<char>> {
    v.map_values(|s: String| s@)
}

impl View for CalDavXmlResponse {
    type V = ResponseView;

    open spec fn view(&self) -> ResponseView {
        ResponseView {
            tags: names_view(self.tags@),
            texts: texts_view(self.texts@),
            vevent: self.has_vevent_support,
        }
    }
}

pub open spec fn responses_view(v: Seq<CalDavXmlResponse>) -> Seq<ResponseView> {
    v.map_values(|r: CalDavXmlResponse| r@)
}

pub open spec fn stack_view(v: Seq<CalDavXmlStackEntry>) -> Seq<(Seq<char>, Option<usize>)> {
    v.map_values(|e: CalDavXmlStackEntry| (e.local_name@, e.tag_index))
}

/// The reading state: finished responses, the response being read, and the
/// open elements.
pub struct ParseView {
    pub responses: Seq<ResponseView>,
    pub current: Option<ResponseView>,
    pub stack: Seq<(Seq<char>, Option<usize>)>,
}

pub open spec fn empty_response() -> ResponseView {
    ResponseView { tags: Seq::empty(), texts: Seq::empty(), vevent: false }
}

pub open spec fn initial_parse() -> ParseView {
    ParseView { responses: Seq::empty(), current: None, stack: Seq::empty() }
}

/// An element opens: a `response` outside any response starts one; inside a
/// response the tag is recorded; a non-empty element is pushed.
pub open spec fn start_step(
    st: ParseView,
    name: Seq<char>,
    vevent_component: bool,
    is_empty: bool,
) -> ParseView {
    let cur = if st.current is None && name == "response"@ {
        Some(empty_response())
    } else {
        st.current
    };
    let new_cur = match cur {
        Some(r) => Some(
            ResponseView { tags: r.tags.push(name), texts: r.texts, vevent: r.vevent || vevent_component },
        ),
        None => None,
    };
    let tag_index = match cur {
        Some(r) => Some(r.tags.len() as usize),
        None => None,
    };
    ParseView {
        responses: st.responses,
        current: new_cur,
        stack: if is_empty {
            st.stack
        } else {
            st.stack.push((name, tag_index))
        },
    }
}

/// An element closes: the innermost open element is dropped, and a closing
/// `response` finishes the response being read.
pub open spec fn end_step(st: ParseView, name: Seq<char>) -> ParseView {
    let stack = if st.stack.len() > 0 {
        st.stack.drop_last()
    } else {
        st.stack
    };
    if name == "response"@ && st.current is Some {
        ParseView { responses: st.responses.push(st.current->0), current: None, stack }
    } else {
        ParseView { responses: st.responses, current: st.current, stack }
    }
}

/// The tag indexes of the open elements, outermost first.
pub open spec fn stack_ancestors(stack: Seq<(Seq<char>, Option<usize>)>) -> Seq<usize>
    decreases stack.len(),
{
    if stack.len() == 0 {
        Seq::empty()
    } else {
        match stack.last().1 {
            Some(i) => stack_ancestors(stack.drop_last()).push(i),
            None => stack_ancestors(stack.drop_last()),
        }
    }
}

/// Text under an element of the current response: it continues the last
/// text when that one has the same element and ancestors, else starts a new
/// one. Empty text, and text outside a response's elements, is dropped.
pub open spec fn text_step(st: ParseView, text: Seq<char>) -> ParseView {
    if text.len() == 0 || st.current is None || st.stack.len() == 0 || st.stack.last().1 is None {
        st
    } else {
        let r = st.current->0;
        let name = st.stack.last().0;
        let anc = stack_ancestors(st.stack);
        let texts = if r.texts.len() > 0 && r.texts.last().local_name == name
            && r.texts.last().ancestors == anc {
            r.texts.update(
                r.texts.len() - 1,
                TextView {
                    local_name: r.texts.last().local_name,
                    ancestors: r.texts.last().ancestors,
                    text: r.texts.last().text + text,
                },
            )
        } else {
            r.texts.push(TextView { local_name: name, ancestors: anc, text })
        };
        ParseView {
            responses: st.responses,
            current: Some(ResponseView { tags: r.tags, texts, vevent: r.vevent }),
            stack: st.stack,
        }
    }
}

pub open spec fn token_step(st: ParseView, tok: TokenView) -> ParseView {
    match tok {
        TokenView::Start { local_name, vevent_component, is_empty } => start_step(
            st,
            local_name,
            vevent_component,
            is_empty,
        ),
        TokenView::End { local_name } => end_step(st, local_name),
        TokenView::Text(t) => text_step(st, t),
    }
}

/// The state after reading a sequence of tokens.
pub open spec fn parse_tokens_spec(toks: Seq<TokenView>) -> ParseView
    decreases toks.len(),
{
    if toks.len() == 0 {
        initial_parse()
    } else {
        token_step(parse_tokens_spec(toks.drop_last()), toks.last())
    }
}

fn empty_xml_response() -> (r: CalDavXmlResponse)
    ensures
        r@ == empty_response(),
{
    let r = CalDavXmlResponse { tags: Vec::new(), texts: Vec::new(), has_vevent_support: false };
    assert(r@.tags =~= Seq::<Seq<char>>::empty());
    assert(r@.texts =~= Seq::<TextView>::empty());
    r
}

/// Whether two index lists are equal.
fn indexes_equal(a: &Vec<usize>, b: &Vec<usize>) -> (r: bool)
    ensures
        r == (a@ == b@),
{
    if a.len() != b.len() {
        return false;
    }
    let mut i: usize = 0;
    while i < a.len()
        invariant
            i <= a@.len(),
            a@.len() == b@.len(),
            forall|j: int| 0 <= j < i ==> a@[j] == b@[j],
        decreases a.len() - i,
    {
        if a[i] != b[i] {
            return false;
        }
        i += 1;
    }
    assert(a@ =~= b@);
    true
}

/// The tag indexes of the open elements.
fn current_ancestors(stack: &Vec<CalDavXmlStackEntry>) -> (r: Vec<usize>)
    ensures
        r@ == stack_ancestors(stack_view(stack@)),
{
    let ghost sv = stack_view(stack@);
    let mut r: Vec<usize> = Vec::new();
    let mut i: usize = 0;
    while i < stack.len()
        invariant
            i <= stack@.len(),
            sv == stack_view(stack@),
            r@ == stack_ancestors(sv.subrange(0, i as int)),
        decreases stack.len() - i,
    {
        assert(sv.subrange(0, i + 1).drop_last() =~= sv.subrange(0, i as int));
        match stack[i].tag_index {
            Some(t) => r.push(t),
            None => {},
        }
        i += 1;
    }
    assert(sv.subrange(0, sv.len() as int) =~= sv);
    r
}

/// Builds the response records from the tokens of an answer (see
/// `parse_tokens_spec`); a response left open at the end is dropped.
pub fn parse_multistatus_tokens(tokens: &Vec<XmlToken>) -> (r: Vec<CalDavXmlResponse>)
    ensures
        responses_view(r@) == parse_tokens_spec(tokens_view(tokens@)).responses,
{
    let mut responses: Vec<CalDavXmlResponse> = Vec::new();
    let mut has_current = false;
    let mut cur = empty_xml_response();
    let mut stack: Vec<CalDavXmlStackEntry> = Vec::new();
    let mut i: usize = 0;
    let ghost tv = tokens_view(tokens@);
    assert(responses_view(responses@) =~= Seq::<ResponseView>::empty());
    assert(stack_view(stack@) =~= Seq::<(Seq<char>, Option<usize>)>::empty());
    while i < tokens.len()
        invariant
            i <= tokens@.len(),
            tv == tokens_view(tokens@),
            responses_view(responses@) == parse_tokens_spec(tv.subrange(0, i as int)).responses,
            stack_view(stack@) == parse_tokens_spec(tv.subrange(0, i as int)).stack,
            has_current <==> parse_tokens_spec(tv.subrange(0, i as int)).current is Some,
            has_current ==> parse_tokens_spec(tv.subrange(0, i as int)).current == Some(cur@),
        decreases tokens.len() - i,
    {
        let ghost before = parse_tokens_spec(tv.subrange(0, i as int));
        assert(tv.subrange(0, i + 1).drop_last() =~= tv.subrange(0, i as int));
        assert(tv.subrange(0, i + 1).last() == tokens@[i as int]@);
        let ghost after = token_step(before, tokens@[i as int]@);
        match &tokens[i] {
            XmlToken::Start { local_name, vevent_component, is_empty } => {
                if !has_current && *local_name == String::from_str("response") {
                    has_current = true;
                    cur = empty_xml_response();
                }
                let tag_index: Option<usize> = if has_current {
                    let idx = cur.tags.len();
                    let ghost old_tags = names_view(cur.tags@);
                    cur.tags.push(local_name.clone());
                    assert(names_view(cur.tags@) =~= old_tags.push(local_name@));
                    cur.has_vevent_support = cur.has_vevent_support || *vevent_component;
                    Some(idx)
                } else {
                    None
                };
                if !*is_empty {
                    let ghost old_stack = stack_view(stack@);
                    stack.push(CalDavXmlStackEntry { local_name: local_name.clone(), tag_index });
                    assert(stack_view(stack@) =~= old_stack.push((local_name@, tag_index)));
                }
                assert(has_current ==> after.current == Some(cur@));
            },
            XmlToken::End { local_name } => {
                if stack.len() > 0 {
                    let ghost old_stack = stack_view(stack@);
                    stack.pop();
                    assert(stack_view(stack@) =~= old_stack.drop_last());
                }
                if *local_name == String::from_str("response") && has_current {
                    let finished = cur;
                    cur = empty_xml_response();
                    has_current = false;
                    let ghost old_resps = responses_view(responses@);
                    responses.push(finished);
                    assert(responses_view(responses@) =~= old_resps.push(finished@));
                }
            },
            XmlToken::Text(text) => {
                if !text.as_str().is_empty() && has_current && stack.len() > 0
                    && stack[stack.len() - 1].tag_index.is_some() {
                    let name = stack[stack.len() - 1].local_name.clone();
                    let anc = current_ancestors(&stack);
                    let n = cur.texts.len();
                    let mut extend = false;
                    if n > 0 {
                        if cur.texts[n - 1].local_name == name && indexes_equal(
                            &cur.texts[n - 1].ancestors,
                            &anc,
                        ) {
                            extend = true;
                        }
                    }
                    let ghost old_texts = texts_view(cur.texts@);
                    if extend {
                        let mut last = cur.texts.pop().unwrap();
                        let ghost old_last = last@;
                        push_str(&mut last.text, text.as_str());
                        let ghost new_last = last@;
                        cur.texts.push(last);
                        assert(texts_view(cur.texts@) =~= old_texts.update(
                            old_texts.len() - 1,
                            new_last,
                        ));
                    } else {
                        let entry = CalDavXmlText { local_name: name, ancestors: anc, text: text.clone() };
                        let ghost ev = entry@;
                        cur.texts.push(entry);
                        assert(texts_view(cur.texts@) =~= old_texts.push(ev));
                    }
                }
            },
        }
        assert(tv.subrange(0, i + 1) =~= tv.subrange(0, i as int).push(tokens@[i as int]@));
        i += 1;
    }
    assert(tv.subrange(0, tokens@.len() as int) =~= tv);
    responses
}

} // verus!

verus! {

// ---------------------------------------------------------------------------
// Questions asked of a response
// ---------------------------------------------------------------------------

/// The trimmed first text under an element with the given local name.
pub open spec fn first_text_spec(texts: Seq<TextView>, name: Seq<char>) -> Option<Seq<char>>
    decreases texts.len(),
{
    if texts.len() == 0 {
        None
    } else if texts[0].local_name == name {
        Some(trim_spec(texts[0].text))
    } else {
        first_text_spec(texts.drop_first(), name)
    }
}

pub open spec fn has_tag_spec(r: ResponseView, name: Seq<char>) -> bool {
    exists|i: int| 0 <= i < r.tags.len() && r.tags[i] == name
}

/// ASCII white space, as `split_ascii_whitespace` splits on it.
pub open spec fn is_ascii_ws(c: char) -> bool {
    c == ' ' || c == '\t' || c == '\n' || c == '\x0C' || c == '\r'
}

/// The words read so far and the word being read, scanning `s`.
pub open spec fn ws_split_state(s: Seq<char>) -> (Seq<Seq<char>>, Seq<char>)
    decreases s.len(),
{
    if s.len() == 0 {
        (Seq::empty(), Seq::empty())
    } else {
        let st = ws_split_state(s.drop_last());
        if is_ascii_ws(s.last()) {
            (
                if st.1.len() > 0 {
                    st.0.push(st.1)
                } else {
                    st.0
                },
                Seq::empty(),
            )
        } else {
            (st.0, st.1.push(s.last()))
        }
    }
}

/// The words of `s` between ASCII white space (`split_ascii_whitespace`).
pub open spec fn ascii_words(s: Seq<char>) -> Seq<Seq<char>> {
    let st = ws_split_state(s);
    if st.1.len() > 0 {
        st.0.push(st.1)
    } else {
        st.0
    }
}

/// A status code that counts as success.
pub open spec fn is_success_code(w: Seq<char>) -> bool {
    w == "200"@ || w == "201"@ || w == "204"@ || w == "207"@
}

pub open spec fn status_text_success(text: Seq<char>) -> bool {
    exists|k: int| 0 <= k < ascii_words(text).len() && is_success_code(ascii_words(text)[k])
}

/// Whether some `status` text of the response holds a success code.
pub open spec fn has_success_spec(r: ResponseView) -> bool {
    exists|i: int|
        0 <= i < r.texts.len() && r.texts[i].local_name == "status"@ && status_text_success(
            #[trigger] r.texts[i].text,
        )
}

/// A calendar collection holds events unless it lists its components
/// without `VEVENT`.
pub open spec fn supports_vevent_spec(r: ResponseView) -> bool {
    !has_tag_spec(r, "supported-calendar-component-set"@) || r.vevent
}

/// Writable unless the privileges are listed without write, write-content,
/// bind or all.
pub open spec fn is_writable_spec(r: ResponseView) -> bool {
    !has_tag_spec(r, "current-user-privilege-set"@) || has_tag_spec(r, "write"@) || has_tag_spec(
        r,
        "write-content"@,
    ) || has_tag_spec(r, "bind"@) || has_tag_spec(r, "all"@)
}

fn is_success_word(w: &String) -> (b: bool)
    ensures
        b == is_success_code(w@),
{
    *w == String::from_str("200") || *w == String::from_str("201") || *w == String::from_str("204")
        || *w == String::from_str("207")
}

/// Whether a status text holds a success code among its words.
pub fn status_text_has_success(text: &str) -> (b: bool)
    ensures
        b == status_text_success(text@),
{
    let chars = str_to_chars(text);
    let mut cur = String::new();
    let mut found = false;
    let ghost mut words: Seq<Seq<char>> = Seq::empty();
    let mut i: usize = 0;
    while i < chars.len()
        invariant
            i <= chars@.len(),
            chars@ == text@,
            (words, cur@) == ws_split_state(chars@.subrange(0, i as int)),
            found == (exists|k: int| 0 <= k < words.len() && is_success_code(words[k])),
        decreases chars.len() - i,
    {
        assert(chars@.subrange(0, i + 1).drop_last() =~= chars@.subrange(0, i as int));
        let c = chars[i];
        if c == ' ' || c == '\t' || c == '\n' || c == '\x0C' || c == '\r' {
            if !cur.as_str().is_empty() {
                let hit = is_success_word(&cur);
                proof {
                    let old_words = words;
                    words = words.push(cur@);
                    assert(found || hit <==> (exists|k: int|
                        0 <= k < words.len() && is_success_code(words[k]))) by {
                        if hit {
                            assert(words[old_words.len() as int] == cur@);
                        }
                        if found {
                            let k = choose|k: int|
                                0 <= k < old_words.len() && is_success_code(old_words[k]);
                            assert(words[k] == old_words[k]);
                        }
                        if exists|k: int| 0 <= k < words.len() && is_success_code(words[k]) {
                            let k = choose|k: int| 0 <= k < words.len() && is_success_code(words[k]);
                            if k < old_words.len() {
                                assert(old_words[k] == words[k]);
                            }
                        }
                    }
                }
                found = found || hit;
            }
            cur = String::new();
        } else {
            push_char(&mut cur, c);
        }
        i += 1;
    }
    assert(chars@.subrange(0, chars@.len() as int) =~= chars@);
    if cur.as_str().is_empty() {
        assert(ascii_words(text@) == words);
        found
    } else {
        let hit = is_success_word(&cur);
        proof {
            let all = words.push(cur@);
            assert(ascii_words(text@) == all);
            if hit {
                assert(all[words.len() as int] == cur@);
            }
            if found {
                let k = choose|k: int| 0 <= k < words.len() && is_success_code(words[k]);
                assert(all[k] == words[k]);
            }
            if exists|k: int| 0 <= k < all.len() && is_success_code(all[k]) {
                let k = choose|k: int| 0 <= k < all.len() && is_success_code(all[k]);
                if k < words.len() {
                    assert(words[k] == all[k]);
                }
            }
        }
        found || hit
    }
}

impl CalDavXmlResponse {
    /// The trimmed first text under an element with this local name.
    pub fn first_text(&self, local_name: &str) -> (r: Option<String>)
        ensures
            match r {
                Some(s) => first_text_spec(self@.texts, local_name@) == Some(s@),
                None => first_text_spec(self@.texts, local_name@) is None,
            },
    {
        let ghost tv = self@.texts;
        let name = String::from_str(local_name);
        let mut i: usize = 0;
        assert(tv.skip(0) =~= tv);
        while i < self.texts.len()
            invariant
                i <= self.texts@.len(),
                tv == texts_view(self.texts@),
                name@ == local_name@,
                first_text_spec(tv, local_name@) == first_text_spec(tv.skip(i as int), local_name@),
            decreases self.texts.len() - i,
        {
            assert(tv.skip(i as int).drop_first() =~= tv.skip(i + 1));
            assert(tv.skip(i as int)[0] == self.texts@[i as int]@);
            if self.texts[i].local_name == name {
                return Some(trim(self.texts[i].text.as_str()));
            }
            i += 1;
        }
        None
    }

    /// Whether a tag with this local name occurs in the response.
    pub fn has_tag(&self, local_name: &str) -> (b: bool)
        ensures
            b == has_tag_spec(self@, local_name@),
    {
        let name = String::from_str(local_name);
        let mut i: usize = 0;
        while i < self.tags.len()
            invariant
                i <= self.tags@.len(),
                name@ == local_name@,
                forall|j: int| 0 <= j < i ==> self@.tags[j] != local_name@,
            decreases self.tags.len() - i,
        {
            if self.tags[i] == name {
                assert(self@.tags[i as int] == local_name@);
                return true;
            }
            i += 1;
        }
        false
    }

    /// Whether a `status` text of the response reports success.
    pub fn has_success(&self) -> (b: bool)
        ensures
            b == has_success_spec(self@),
    {
        let status = String::from_str("status");
        let mut i: usize = 0;
        while i < self.texts.len()
            invariant
                i <= self.texts@.len(),
                status@ == "status"@,
                forall|j: int|
                    0 <= j < i ==> !(self@.texts[j].local_name == "status"@ && status_text_success(
                        #[trigger] self@.texts[j].text,
                    )),
            decreases self.texts.len() - i,
        {
            if self.texts[i].local_name == status && status_text_has_success(
                self.texts[i].text.as_str(),
            ) {
                assert(self@.texts[i as int].local_name == "status"@);
                assert(status_text_success(self@.texts[i as int].text));
                return true;
            }
            i += 1;
        }
        false
    }

    /// Whether the collection accepts events.
    pub fn supports_vevent(&self) -> (b: bool)
        ensures
            b == supports_vevent_spec(self@),
    {
        !self.has_tag("supported-calendar-component-set") || self.has_vevent_support
    }

    /// Whether the current user may write to the collection.
    pub fn is_writable_calendar(&self) -> (b: bool)
        ensures
            b == is_writable_spec(self@),
    {
        if !self.has_tag("current-user-privilege-set") {
            return true;
        }
        self.has_tag("write") || self.has_tag("write-content") || self.has_tag("bind")
            || self.has_tag("all")
    }
}

} // verus!

verus! {

// ---------------------------------------------------------------------------
// Reading an answer
// ---------------------------------------------------------------------------

/// The token of a start tag with the given content: the local part of its
/// name (the content up to the first XML white space, read as UTF-8), and
/// whether it is a `comp` element whose `name` attribute is `VEVENT`
/// (ignoring ASCII case).
pub open spec fn start_token_spec(content: Seq<u8>, is_empty: bool) -> TokenView {
    let n = name_len_spec(content);
    let local = local_name_spec(utf8_lossy_spec(content.take(n as int)));
    TokenView::Start {
        local_name: local,
        vevent_component: local == "comp"@ && has_attribute_spec(
            xml_attributes_result(content, n),
            "name"@,
            "VEVENT"@,
        ),
        is_empty,
    }
}

/// A token in front of the tokens that follow (or their error).
pub open spec fn prepend_token(t: TokenView, rest: Result<Seq<TokenView>, Seq<char>>) -> Result<
    Seq<TokenView>,
    Seq<char>,
> {
    match rest {
        Ok(s) => Ok(seq![t] + s),
        Err(e) => Err(e),
    }
}

/// Tokens read before others in front of those (or their error).
pub open spec fn prefix_tokens(pre: Seq<TokenView>, rest: Result<Seq<TokenView>, Seq<char>>) -> Result<
    Seq<TokenView>,
    Seq<char>,
> {
    match rest {
        Ok(s) => Ok(pre + s),
        Err(e) => Err(e),
    }
}

/// The tokens of the reader's events from the `k`-th on, reading at most
/// `fuel` more events: start, empty and end tags by local name, text and
/// CDATA decoded, general references decoded, other events skipped; the
/// end of input ends them; a reader or decoding error, or running out of
/// reads, fails.
pub open spec fn xml_tokens_from(text: Seq<char>, k: nat, fuel: nat) -> Result<Seq<TokenView>, Seq<char>>
    decreases fuel,
{
    if fuel == 0 {
        Err("XML 读取未结束。"@)
    } else {
        let rest = xml_tokens_from(text, k + 1, (fuel - 1) as nat);
        match xml_event_result(text, k) {
            RawEventView::Start { content, is_empty } => prepend_token(start_token_spec(content, is_empty), rest),
            RawEventView::End { name } => prepend_token(
                TokenView::End { local_name: local_name_spec(utf8_lossy_spec(name)) },
                rest,
            ),
            RawEventView::Text(b) => match xml_decode_result(b) {
                Ok(t) => prepend_token(TokenView::Text(t), rest),
                Err(e) => Err(e),
            },
            RawEventView::GeneralRef(b) => prepend_token(
                TokenView::Text(decode_xml_general_ref_spec(utf8_lossy_spec(b))),
                rest,
            ),
            RawEventView::Eof => Ok(Seq::empty()),
            RawEventView::Other => rest,
            RawEventView::Error(e) => Err(e),
        }
    }
}

/// The tokens of an XML answer: every event the reader gives before the
/// end consumes at least one byte, so the end comes within `len + 1` reads.
pub open spec fn xml_tokens_spec(xml: &str) -> Result<Seq<TokenView>, Seq<char>> {
    xml_tokens_from(xml@, 0, (xml.spec_bytes().len() + 1) as nat)
}

/// The first `n` bytes.
fn prefix_bytes(v: &Vec<u8>, n: usize) -> (r: Vec<u8>)
    requires
        n <= v@.len(),
    ensures
        r@ == v@.take(n as int),
{
    let mut out: Vec<u8> = Vec::new();
    let mut i: usize = 0;
    while i < n
        invariant
            i <= n <= v@.len(),
            out@ == v@.take(i as int),
        decreases n - i,
    {
        out.push(v[i]);
        assert(v@.take(i + 1) =~= v@.take(i as int).push(v@[i as int]));
        i += 1;
    }
    out
}

/// The token of a start tag with the given content (see `start_token_spec`).
fn start_token(content: &Vec<u8>, is_empty: bool) -> (r: XmlToken)
    ensures
        r@ == start_token_spec(content@, is_empty),
{
    let n = xml_name_len(content.as_slice());
    proof {
        lemma_name_len_bound(content@);
    }
    let name = xml_local_name(prefix_bytes(content, n).as_slice());
    let comp = String::from_str("comp");
    let vevent = if name == comp {
        start_has_case_insensitive_attribute(&start_attribute_bytes(content.as_slice(), n), "name", "VEVENT")
    } else {
        false
    };
    XmlToken::Start { local_name: name, vevent_component: vevent, is_empty }
}

proof fn lemma_name_len_bound(content: Seq<u8>)
    ensures
        name_len_spec(content) <= content.len(),
    decreases content.len(),
{
    if content.len() > 0 && !is_xml_space(content[0]) {
        lemma_name_len_bound(content.drop_first());
    }
}

/// The tokens of an XML answer, read with `quick_xml` (text trimmed; see
/// `xml_tokens_spec`), or the reader's or the decoder's error.
pub fn read_xml_tokens(xml: &str) -> (r: Result<Vec<XmlToken>, String>)
    ensures
        match r {
            Ok(v) => xml_tokens_spec(xml) == Ok::<Seq<TokenView>, Seq<char>>(tokens_view(v@)),
            Err(e) => xml_tokens_spec(xml) == Err::<Seq<TokenView>, Seq<char>>(e@),
        },
{
    let mut cursor = xml_cursor(xml);
    let limit: u128 = xml.as_bytes().len() as u128;
    let mut tokens: Vec<XmlToken> = Vec::new();
    let mut steps: u128 = 0;
    let ghost fuel0: nat = (xml.spec_bytes().len() + 1) as nat;
    assert(tokens_view(tokens@) =~= Seq::<TokenView>::empty());
    assert(prefix_tokens(Seq::empty(), xml_tokens_from(xml@, 0, fuel0)) == xml_tokens_from(xml@, 0, fuel0)) by {
        match xml_tokens_from(xml@, 0, fuel0) {
            Ok(t) => {
                assert(Seq::<TokenView>::empty() + t =~= t);
            },
            Err(_) => {},
        }
    }
    while steps <= limit
        invariant
            limit == xml.spec_bytes().len(),
            limit <= usize::MAX,
            fuel0 == limit + 1,
            steps <= limit + 1,
            cursor.text() == xml@,
            cursor.reads() == steps,
            xml_tokens_spec(xml) == prefix_tokens(
                tokens_view(tokens@),
                xml_tokens_from(xml@, steps as nat, (limit + 1 - steps) as nat),
            ),
        decreases limit + 1 - steps,
    {
        let ghost pre = tokens_view(tokens@);
        let ghost fuel: nat = (limit + 1 - steps) as nat;
        let ghost rest = xml_tokens_from(xml@, (steps + 1) as nat, (fuel - 1) as nat);
        let event = read_raw_event(&mut cursor);
        steps += 1;
        match event {
            RawXmlEvent::Start(content, is_empty) => {
                let t = start_token(&content, is_empty);
                let ghost tv = t@;
                tokens.push(t);
                proof {
                    assert(tokens_view(tokens@) =~= pre.push(tv));
                    lemma_prefix_push(pre, tv, rest);
                }
            },
            RawXmlEvent::End(name) => {
                let t = XmlToken::End { local_name: xml_local_name(name.as_slice()) };
                let ghost tv = t@;
                tokens.push(t);
                proof {
                    assert(tokens_view(tokens@) =~= pre.push(tv));
                    lemma_prefix_push(pre, tv, rest);
                }
            },
            RawXmlEvent::Text(bytes) => match decode_xml_text(&cursor, bytes.as_slice()) {
                Ok(text) => {
                    let t = XmlToken::Text(text);
                    let ghost tv = t@;
                    tokens.push(t);
                    proof {
                        assert(tokens_view(tokens@) =~= pre.push(tv));
                        lemma_prefix_push(pre, tv, rest);
                    }
                },
                Err(error) => {
                    return Err(error);
                },
            },
            RawXmlEvent::GeneralRef(bytes) => {
                let name = utf8_lossy(bytes.as_slice());
                let t = XmlToken::Text(decode_xml_general_ref(name.as_str()));
                let ghost tv = t@;
                tokens.push(t);
                proof {
                    assert(tokens_view(tokens@) =~= pre.push(tv));
                    lemma_prefix_push(pre, tv, rest);
                }
            },
            RawXmlEvent::Eof => {
                assert(pre + Seq::<TokenView>::empty() =~= pre);
                return Ok(tokens);
            },
            RawXmlEvent::Other => {},
            RawXmlEvent::Error(error) => {
                return Err(error);
            },
        }
    }
    Err(String::from_str("XML 读取未结束。"))
}

/// Putting one more token at the end of what was read and taking it from
/// the front of what follows leaves the whole unchanged.
proof fn lemma_prefix_push(pre: Seq<TokenView>, t: TokenView, rest: Result<Seq<TokenView>, Seq<char>>)
    ensures
        prefix_tokens(pre, prepend_token(t, rest)) == prefix_tokens(pre.push(t), rest),
{
    match rest {
        Ok(s) => {
            assert(pre + (seq![t] + s) =~= pre.push(t) + s);
        },
        Err(_) => {},
    }
}

/// The response records of a multistatus answer: those its tokens build
/// (see `parse_multistatus_tokens`), or the reader's error.
pub fn parse_multistatus_responses(xml: &str) -> (r: Result<Vec<CalDavXmlResponse>, String>)
    ensures
        match xml_tokens_spec(xml) {
            Ok(t) => r matches Ok(v) && responses_view(v@) == parse_tokens_spec(t).responses,
            Err(e) => r matches Err(m) && m@ == e,
        },
{
    match read_xml_tokens(xml) {
        Ok(tokens) => {
            let v = parse_multistatus_tokens(&tokens);
            Ok(v)
        },
        Err(e) => Err(e),
    }
}

// ---------------------------------------------------------------------------
// Discovery and queries
// ---------------------------------------------------------------------------

pub struct CalendarView {
    pub url: Seq<char>,
    pub name: Seq<char>,
    pub writable: bool,
}

impl View for CalDavCalendar {
    type V = CalendarView;

    open spec fn view(&self) -> CalendarView {
        CalendarView { url: self.url@, name: self.name@, writable: self.writable }
    }
}

pub open spec fn calendars_view(v: Seq<CalDavCalendar>) -> Seq<CalendarView> {
    v.map_values(|c: CalDavCalendar| c@)
}

/// One response of a discovery answer: a successful, writable calendar
/// collection that holds events and has an address is listed, named by its
/// display name when that is not blank, else by its address. An address
/// that cannot be resolved fails the discovery.
pub open spec fn discovery_step(
    acc: Result<Seq<CalendarView>, Seq<char>>,
    base: Seq<char>,
    r: ResponseView,
) -> Result<Seq<CalendarView>, Seq<char>> {
    match acc {
        Err(e) => Err(e),
        Ok(cals) => if !has_success_spec(r) || !has_tag_spec(r, "calendar"@) || !supports_vevent_spec(
            r,
        ) {
            Ok(cals)
        } else {
            match first_text_spec(r.texts, "href"@) {
                None => Ok(cals),
                Some(href) => match url_join_result(base, trim_spec(href)) {
                    Err(e) => Err(e),
                    Ok(url) => {
                        let name = match first_text_spec(r.texts, "displayname"@) {
                            Some(n) => if trim_spec(n).len() != 0 {
                                n
                            } else {
                                url
                            },
                            None => url,
                        };
                        if !is_writable_spec(r) {
                            Ok(cals)
                        } else {
                            Ok(cals.push(CalendarView { url, name, writable: true }))
                        }
                    },
                },
            }
        },
    }
}

pub open spec fn discovery_spec(base: Seq<char>, rs: Seq<ResponseView>) -> Result<
    Seq<CalendarView>,
    Seq<char>,
>
    decreases rs.len(),
{
    if rs.len() == 0 {
        Ok(Seq::empty())
    } else {
        discovery_step(discovery_spec(base, rs.drop_last()), base, rs.last())
    }
}

pub open spec fn calendars_result_view(r: Result<Vec<CalDavCalendar>, String>) -> Result<
    Seq<CalendarView>,
    Seq<char>,
> {
    match r {
        Ok(v) => Ok(calendars_view(v@)),
        Err(e) => Err(e@),
    }
}

/// The writable event calendars listed in discovery responses (see
/// `discovery_step`), in order.
pub fn calendars_from_responses(base_url: &str, responses: &Vec<CalDavXmlResponse>) -> (r: Result<
    Vec<CalDavCalendar>,
    String,
>)
    ensures
        calendars_result_view(r) == discovery_spec(base_url@, responses_view(responses@)),
{
    let ghost rv = responses_view(responses@);
    let mut cals: Vec<CalDavCalendar> = Vec::new();
    let mut i: usize = 0;
    assert(calendars_view(cals@) =~= Seq::<CalendarView>::empty());
    while i < responses.len()
        invariant
            i <= responses@.len(),
            rv == responses_view(responses@),
            discovery_spec(base_url@, rv.subrange(0, i as int)) == Ok::<
                Seq<CalendarView>,
                Seq<char>,
            >(calendars_view(cals@)),
        decreases responses.len() - i,
    {
        assert(rv.subrange(0, i + 1).drop_last() =~= rv.subrange(0, i as int));
        assert(rv.subrange(0, i + 1).last() == responses@[i as int]@);
        let response = &responses[i];
        if response.has_success() && response.has_tag("calendar") && response.supports_vevent() {
            match response.first_text("href") {
                None => {},
                Some(href) => {
                    let url = match resolve_url(base_url, href.as_str()) {
                        Ok(u) => u,
                        Err(e) => {
                            proof {
                                lemma_discovery_err_stays(base_url@, rv, i as int + 1, e@);
                                assert(rv.subrange(0, rv.len() as int) =~= rv);
                            }
                            return Err(e);
                        },
                    };
                    let name = match response.first_text("displayname") {
                        Some(n) => if !trim_is_empty(n.as_str()) {
                            n
                        } else {
                            url.clone()
                        },
                        None => url.clone(),
                    };
                    if response.is_writable_calendar() {
                        let ghost old = calendars_view(cals@);
                        let cal = CalDavCalendar { url, name, writable: true };
                        let ghost cv = cal@;
                        cals.push(cal);
                        assert(calendars_view(cals@) =~= old.push(cv));
                    }
                },
            }
        }
        i += 1;
    }
    assert(rv.subrange(0, rv.len() as int) =~= rv);
    Ok(cals)
}

/// Once discovery fails, it stays failed.
proof fn lemma_discovery_err_stays(base: Seq<char>, rs: Seq<ResponseView>, k: int, e: Seq<char>)
    requires
        0 <= k <= rs.len(),
        discovery_spec(base, rs.subrange(0, k)) == Err::<Seq<CalendarView>, Seq<char>>(e),
    ensures
        discovery_spec(base, rs) == Err::<Seq<CalendarView>, Seq<char>>(e),
    decreases rs.len() - k,
{
    if k < rs.len() {
        assert(rs.subrange(0, k + 1).drop_last() =~= rs.subrange(0, k));
        lemma_discovery_err_stays(base, rs, k + 1, e);
    } else {
        assert(rs.subrange(0, k) =~= rs);
    }
}

/// The writable event calendars of a discovery answer, addresses resolved
/// against `base_url`.
pub fn parse_calendar_discovery_response(base_url: &str, xml: &str) -> (r: Result<
    Vec<CalDavCalendar>,
    String,
>)
    ensures
        calendars_result_view(r) == match xml_tokens_spec(xml) {
            Ok(t) => discovery_spec(base_url@, parse_tokens_spec(t).responses),
            Err(e) => Err(e),
        },
{
    let responses = match parse_multistatus_responses(xml) {
        Ok(v) => v,
        Err(e) => {
            return Err(e);
        },
    };
    calendars_from_responses(base_url, &responses)
}

pub open spec fn events_view(v: Seq<RemoteCalendarEvent>) -> Seq<crate::caldav::RemoteEventView> {
    v.map_values(|e: RemoteCalendarEvent| e@)
}

/// One response of a calendar query: a successful response with an address
/// and calendar data gives the event its data holds (addresses resolved
/// against `base`, the etag kept); an unresolvable address or unreadable
/// event fails the query.
pub open spec fn query_step(
    acc: Result<Seq<crate::caldav::RemoteEventView>, Seq<char>>,
    base: Seq<char>,
    r: ResponseView,
) -> Result<Seq<crate::caldav::RemoteEventView>, Seq<char>> {
    match acc {
        Err(e) => Err(e),
        Ok(evs) => if !has_success_spec(r) {
            Ok(evs)
        } else {
            match (first_text_spec(r.texts, "href"@), first_text_spec(r.texts, "calendar-data"@)) {
                (Some(href), Some(data)) => match url_join_result(base, trim_spec(href)) {
                    Err(e) => Err(e),
                    Ok(url) => match parse_ics_event_spec(
                        url,
                        first_text_spec(r.texts, "getetag"@),
                        data,
                    ) {
                        Err(e) => Err(e),
                        Ok(None) => Ok(evs),
                        Ok(Some(ev)) => Ok(evs.push(ev)),
                    },
                },
                _ => Ok(evs),
            }
        },
    }
}

pub open spec fn query_spec(base: Seq<char>, rs: Seq<ResponseView>) -> Result<
    Seq<crate::caldav::RemoteEventView>,
    Seq<char>,
>
    decreases rs.len(),
{
    if rs.len() == 0 {
        Ok(Seq::empty())
    } else {
        query_step(query_spec(base, rs.drop_last()), base, rs.last())
    }
}

/// Once a query fails, it stays failed.
proof fn lemma_query_err_stays(base: Seq<char>, rs: Seq<ResponseView>, k: int, e: Seq<char>)
    requires
        0 <= k <= rs.len(),
        query_spec(base, rs.subrange(0, k)) == Err::<Seq<crate::caldav::RemoteEventView>, Seq<char>>(e),
    ensures
        query_spec(base, rs) == Err::<Seq<crate::caldav::RemoteEventView>, Seq<char>>(e),
    decreases rs.len() - k,
{
    if k < rs.len() {
        assert(rs.subrange(0, k + 1).drop_last() =~= rs.subrange(0, k));
        lemma_query_err_stays(base, rs, k + 1, e);
    } else {
        assert(rs.subrange(0, k) =~= rs);
    }
}

pub open spec fn events_result_view(r: Result<Vec<RemoteCalendarEvent>, String>) -> Result<
    Seq<crate::caldav::RemoteEventView>,
    Seq<char>,
> {
    match r {
        Ok(v) => Ok(events_view(v@)),
        Err(e) => Err(e@),
    }
}

/// The events of calendar-query responses (see `query_step`), in order.
pub fn events_from_responses(base_url: &str, responses: &Vec<CalDavXmlResponse>) -> (r: Result<
    Vec<RemoteCalendarEvent>,
    String,
>)
    ensures
        events_result_view(r) == query_spec(base_url@, responses_view(responses@)),
{
    let ghost rv = responses_view(responses@);
    let mut events: Vec<RemoteCalendarEvent> = Vec::new();
    let mut i: usize = 0;
    assert(events_view(events@) =~= Seq::<crate::caldav::RemoteEventView>::empty());
    while i < responses.len()
        invariant
            i <= responses@.len(),
            rv == responses_view(responses@),
            query_spec(base_url@, rv.subrange(0, i as int)) == Ok::<
                Seq<crate::caldav::RemoteEventView>,
                Seq<char>,
            >(events_view(events@)),
        decreases responses.len() - i,
    {
        assert(rv.subrange(0, i + 1).drop_last() =~= rv.subrange(0, i as int));
        assert(rv.subrange(0, i + 1).last() == responses@[i as int]@);
        let response = &responses[i];
        if response.has_success() {
            let href = response.first_text("href");
            let data = response.first_text("calendar-data");
            match (href, data) {
                (Some(href), Some(data)) => {
                    let url = match resolve_url(base_url, href.as_str()) {
                        Ok(u) => u,
                        Err(e) => {
                            proof {
                                lemma_query_err_stays(base_url@, rv, i as int + 1, e@);
                                assert(rv.subrange(0, rv.len() as int) =~= rv);
                            }
                            return Err(e);
                        },
                    };
                    let etag = response.first_text("getetag");
                    let etag_ref: Option<&str> = match &etag {
                        Some(t) => Some(t.as_str()),
                        None => None,
                    };
                    match parse_ics_event(url.as_str(), etag_ref, data.as_str()) {
                        Err(e) => {
                            proof {
                                lemma_query_err_stays(base_url@, rv, i as int + 1, e@);
                                assert(rv.subrange(0, rv.len() as int) =~= rv);
                            }
                            return Err(e);
                        },
                        Ok(None) => {},
                        Ok(Some(ev)) => {
                            let ghost old = events_view(events@);
                            let ghost evv = ev@;
                            events.push(ev);
                            assert(events_view(events@) =~= old.push(evv));
                        },
                    }
                },
                _ => {},
            }
        }
        i += 1;
    }
    assert(rv.subrange(0, rv.len() as int) =~= rv);
    Ok(events)
}

/// The events of a calendar-query answer, addresses resolved against
/// `base_url`.
pub fn parse_calendar_query_response(base_url: &str, xml: &str) -> (r: Result<
    Vec<RemoteCalendarEvent>,
    String,
>)
    ensures
        events_result_view(r) == match xml_tokens_spec(xml) {
            Ok(t) => query_spec(base_url@, parse_tokens_spec(t).responses),
            Err(e) => Err(e),
        },
{
    let responses = match parse_multistatus_responses(xml) {
        Ok(v) => v,
        Err(e) => {
            return Err(e);
        },
    };
    events_from_responses(base_url, &responses)
}

/// The index of the first tag with the given local name.
pub open spec fn tag_position(tags: Seq<Seq<char>>, name: Seq<char>) -> Option<int>
    decreases tags.len(),
{
    if tags.len() == 0 {
        None
    } else if tags[0] == name {
        Some(0)
    } else {
        match tag_position(tags.drop_first(), name) {
            Some(i) => Some(i + 1),
            None => None,
        }
    }
}

/// The trimmed first `href` text under the element at `index`.
pub open spec fn href_under(texts: Seq<TextView>, index: int) -> Option<Seq<char>>
    decreases texts.len(),
{
    if texts.len() == 0 {
        None
    } else if texts[0].local_name == "href"@ && texts[0].ancestors.contains(index as usize) {
        Some(trim_spec(texts[0].text))
    } else {
        href_under(texts.drop_first(), index)
    }
}

/// The first response, in order, whose first tag named `property` has an
/// `href` below it gives that address.
pub open spec fn first_href_spec(rs: Seq<ResponseView>, property: Seq<char>) -> Option<Seq<char>>
    decreases rs.len(),
{
    if rs.len() == 0 {
        None
    } else {
        match tag_position(rs[0].tags, property) {
            Some(p) => match href_under(rs[0].texts, p) {
                Some(h) => Some(h),
                None => first_href_spec(rs.drop_first(), property),
            },
            None => first_href_spec(rs.drop_first(), property),
        }
    }
}

proof fn lemma_tag_position_bound(tags: Seq<Seq<char>>, name: Seq<char>)
    ensures
        tag_position(tags, name) matches Some(i) ==> 0 <= i < tags.len() && tags[i] == name,
    decreases tags.len(),
{
    if tags.len() > 0 {
        lemma_tag_position_bound(tags.drop_first(), name);
    }
}

/// The position of the first tag with this local name.
fn tag_position_exec(response: &CalDavXmlResponse, name: &str) -> (r: Option<usize>)
    ensures
        match r {
            Some(i) => tag_position(response@.tags, name@) == Some(i as int),
            None => tag_position(response@.tags, name@) is None,
        },
{
    let ghost tv = response@.tags;
    let target = String::from_str(name);
    let mut i: usize = 0;
    assert(tv.skip(0) =~= tv);
    while i < response.tags.len()
        invariant
            i <= response.tags@.len(),
            tv == names_view(response.tags@),
            target@ == name@,
            tag_position(tv, name@) == match tag_position(tv.skip(i as int), name@) {
                Some(j) => Some(j + i),
                None => None::<int>,
            },
        decreases response.tags.len() - i,
    {
        assert(tv.skip(i as int).drop_first() =~= tv.skip(i + 1));
        assert(tv.skip(i as int)[0] == response.tags@[i as int]@);
        if response.tags[i] == target {
            return Some(i);
        }
        i += 1;
    }
    None
}

/// Whether an index list holds `index`.
fn holds_index(v: &Vec<usize>, index: usize) -> (b: bool)
    ensures
        b == v@.contains(index),
{
    let mut i: usize = 0;
    while i < v.len()
        invariant
            i <= v@.len(),
            forall|j: int| 0 <= j < i ==> v@[j] != index,
        decreases v.len() - i,
    {
        if v[i] == index {
            assert(v@[i as int] == index);
            return true;
        }
        i += 1;
    }
    false
}

/// The trimmed first `href` text under the tag at `index`.
fn href_under_exec(response: &CalDavXmlResponse, index: usize) -> (r: Option<String>)
    ensures
        match r {
            Some(s) => href_under(response@.texts, index as int) == Some(s@),
            None => href_under(response@.texts, index as int) is None,
        },
{
    let ghost tv = response@.texts;
    let href = String::from_str("href");
    let mut i: usize = 0;
    assert(tv.skip(0) =~= tv);
    while i < response.texts.len()
        invariant
            i <= response.texts@.len(),
            tv == texts_view(response.texts@),
            href@ == "href"@,
            href_under(tv, index as int) == href_under(tv.skip(i as int), index as int),
        decreases response.texts.len() - i,
    {
        assert(tv.skip(i as int).drop_first() =~= tv.skip(i + 1));
        assert(tv.skip(i as int)[0] == response.texts@[i as int]@);
        let entry = &response.texts[i];
        if entry.local_name == href && holds_index(&entry.ancestors, index) {
            return Some(trim(entry.text.as_str()));
        }
        i += 1;
    }
    None
}

/// The first address given for `property` in the responses (see
/// `first_href_spec`).
pub fn first_href_in_responses(responses: &Vec<CalDavXmlResponse>, property_name: &str) -> (r:
    Option<String>)
    ensures
        match r {
            Some(s) => first_href_spec(responses_view(responses@), property_name@) == Some(s@),
            None => first_href_spec(responses_view(responses@), property_name@) is None,
        },
{
    let ghost rv = responses_view(responses@);
    let mut i: usize = 0;
    assert(rv.skip(0) =~= rv);
    while i < responses.len()
        invariant
            i <= responses@.len(),
            rv == responses_view(responses@),
            first_href_spec(rv, property_name@) == first_href_spec(rv.skip(i as int), property_name@),
        decreases responses.len() - i,
    {
        assert(rv.skip(i as int).drop_first() =~= rv.skip(i + 1));
        assert(rv.skip(i as int)[0] == responses@[i as int]@);
        match tag_position_exec(&responses[i], property_name) {
            Some(p) => {
                proof {
                    lemma_tag_position_bound(responses@[i as int]@.tags, property_name@);
                }
                match href_under_exec(&responses[i], p) {
                    Some(h) => {
                        return Some(h);
                    },
                    None => {},
                }
            },
            None => {},
        }
        i += 1;
    }
    None
}

/// The first address given for `property` in a multistatus answer; none
/// when the answer cannot be read.
pub fn first_href_for_property(xml: &str, property_name: &str) -> (r: Option<String>)
    ensures
        match xml_tokens_spec(xml) {
            Ok(t) => match first_href_spec(parse_tokens_spec(t).responses, property_name@) {
                Some(h) => r matches Some(s) && s@ == h,
                None => r is None,
            },
            Err(_) => r is None,
        },
{
    match parse_multistatus_responses(xml) {
        Ok(responses) => first_href_in_responses(&responses, property_name),
        Err(_) => None,
    }
}

} // verus!
