//! Reading a BirdUI page's current form state. BirdUI is server-rendered
//! HTML with no JSON API, so "read the current settings" means "read the
//! value/checked/selected attributes out of the page". The HTML parsing is
//! `scraper`'s; this module turns the elements it finds into a field map.

use vstd::prelude::*;

use crate::device::opt_view;
use crate::field_map::FieldMap;
use crate::text::{owned, str_eq, trim, trim_str};

verus! {

// ---------------------------------------------------------------------------
// What scraper reports about a page
// ---------------------------------------------------------------------------

/// An `<input>` element's attributes that matter for its form value.
#[derive(Clone, Debug, PartialEq, Eq)]
pub struct InputElement {
    pub name: Option<String>,
    pub input_type: Option<String>,
    pub checked: bool,
    pub value: Option<String>,
}

pub struct InputElementView {
    pub name: Option<Seq<char>>,
    pub input_type: Option<Seq<char>>,
    pub checked: bool,
    pub value: Option<Seq<char>>,
}

impl View for InputElement {
    type V = InputElementView;

    open spec fn view(&self) -> InputElementView {
        InputElementView {
            name: opt_view(self.name),
            input_type: opt_view(self.input_type),
            checked: self.checked,
            value: opt_view(self.value),
        }
    }
}

/// An `<option>` inside a `<select>`.
#[derive(Clone, Debug, PartialEq, Eq)]
pub struct OptionElement {
    pub selected: bool,
    pub value: Option<String>,
}

pub struct OptionElementView {
    pub selected: bool,
    pub value: Option<Seq<char>>,
}

impl View for OptionElement {
    type V = OptionElementView;

    open spec fn view(&self) -> OptionElementView {
        OptionElementView { selected: self.selected, value: opt_view(self.value) }
    }
}

/// A `<select>` element and its options in document order.
#[derive(Clone, Debug, PartialEq, Eq)]
pub struct SelectElement {
    pub name: Option<String>,
    pub options: Vec<OptionElement>,
}

pub struct SelectElementView {
    pub name: Option<Seq<char>>,
    pub options: Seq<OptionElementView>,
}

pub open spec fn option_views(s: Seq<OptionElement>) -> Seq<OptionElementView> {
    s.map_values(|o: OptionElement| o@)
}

impl View for SelectElement {
    type V = SelectElementView;

    open spec fn view(&self) -> SelectElementView {
        SelectElementView { name: opt_view(self.name), options: option_views(self.options@) }
    }
}

pub open spec fn input_views(s: Seq<InputElement>) -> Seq<InputElementView> {
    s.map_values(|e: InputElement| e@)
}

pub open spec fn select_views(s: Seq<SelectElement>) -> Seq<SelectElementView> {
    s.map_values(|e: SelectElement| e@)
}

/// Every `<input>` of an HTML document, in document order, as `scraper`
/// parses it.
pub uninterp spec fn html_input_elements(html: Seq<char>) -> Seq<InputElementView>;

/// Every `<select>` of an HTML document with its `<option>`s, in document
/// order, as `scraper` parses it.
pub uninterp spec fn html_select_elements(html: Seq<char>) -> Seq<SelectElementView>;

/// The text content of the first element with this id, as `scraper`
/// parses the document; `None` when the id makes no valid selector or no
/// element has it.
pub uninterp spec fn html_text_by_id(html: Seq<char>, id: Seq<char>) -> Option<Seq<char>>;

/// An attribute of the first element with this id, as `scraper` parses the
/// document; `None` when the id makes no valid selector, no element has it,
/// or the element lacks the attribute.
pub uninterp spec fn html_attr_by_id(html: Seq<char>, id: Seq<char>, attr: Seq<char>) -> Option<
    Seq<char>,
>;

/// `Html::parse_document` then `select("input")` (scraper), each element's
/// `name`, `type`, `checked` and `value` attributes copied out. Claims only
/// that the result is the named element list of the page.
#[verifier::external_body]
fn scrape_inputs(html: &str) -> (r: Vec<InputElement>)
    ensures
        input_views(r@) == html_input_elements(html@),
{
    let doc = scraper::Html::parse_document(html);
    let sel = scraper::Selector::parse("input").unwrap();
    let own = |v: Option<&str>| v.map(str::to_string);
    doc.select(&sel).map(|e| InputElement {
        name: own(e.attr("name")),
        input_type: own(e.attr("type")),
        checked: e.attr("checked").is_some(),
        value: own(e.attr("value")),
    }).collect()
}

/// `Html::parse_document` then `select("select")` and, inside each,
/// `select("option")` (scraper), the `name`, `selected` and `value`
/// attributes copied out. Claims only that the result is the named element
/// list of the page.
#[verifier::external_body]
fn scrape_selects(html: &str) -> (r: Vec<SelectElement>)
    ensures
        select_views(r@) == html_select_elements(html@),
{
    let doc = scraper::Html::parse_document(html);
    let (sel, opt) = (scraper::Selector::parse("select").unwrap(), scraper::Selector::parse("option").unwrap());
    let own = |v: Option<&str>| v.map(str::to_string);
    doc.select(&sel).map(|e| SelectElement {
        name: own(e.attr("name")),
        options: e.select(&opt).map(|o| OptionElement { selected: o.attr("selected").is_some(), value: own(o.attr("value")) }).collect(),
    }).collect()
}

/// `Selector::parse("#id")` then the first match's `text()` (scraper).
/// Claims only that the result is the named text of that element.
#[verifier::external_body]
fn scrape_text(html: &str, id: &str) -> (r: Option<String>)
    ensures
        opt_view(r) == html_text_by_id(html@, id@),
{
    let doc = scraper::Html::parse_document(html);
    let sel = scraper::Selector::parse(&format!("#{id}")).ok()?;
    doc.select(&sel).next().map(|e| e.text().collect::<String>())
}

/// `Selector::parse("#id")` then the first match's `attr(attr)` (scraper).
/// Claims only that the result is the named attribute value.
#[verifier::external_body]
pub(crate) fn scrape_attr_by_id(html: &str, id: &str, attr: &str) -> (r: Option<String>)
    ensures
        opt_view(r) == html_attr_by_id(html@, id@, attr@),
{
    let doc = scraper::Html::parse_document(html);
    let sel = scraper::Selector::parse(&format!("#{id}")).ok()?;
    doc.select(&sel).next().and_then(|e| e.attr(attr)).map(str::to_string)
}

// ---------------------------------------------------------------------------
// From elements to form fields
// ---------------------------------------------------------------------------

/// The value an `<input>` contributes to its form, if any: a checked
/// radio/checkbox gives its value (`on` without one), buttons and file
/// pickers give nothing, every other type gives its value (empty without
/// one).
pub open spec fn input_value(e: InputElementView) -> Option<Seq<char>> {
    let t = match e.input_type {
        Some(t) => t,
        None => "text"@,
    };
    if t == "radio"@ || t == "checkbox"@ {
        if e.checked {
            Some(
                match e.value {
                    Some(v) => v,
                    None => "on"@,
                },
            )
        } else {
            None
        }
    } else if t == "submit"@ || t == "button"@ || t == "file"@ || t == "image"@ || t == "reset"@ {
        None
    } else {
        Some(
            match e.value {
                Some(v) => v,
                None => Seq::empty(),
            },
        )
    }
}

/// What an input contributes to its form: one without a type counts as a
/// text input and gives its value (empty where it has none), as a `text`
/// input does; a submit button gives nothing; a radio button gives its
/// value (`on` where it has none) when checked and nothing otherwise.
pub proof fn lemma_input_values(e: InputElementView)
    ensures
        e.input_type is None ==> input_value(e) == Some(
            match e.value {
                Some(v) => v,
                None => Seq::<char>::empty(),
            },
        ),
        e.input_type == Some("text"@) ==> input_value(e) == Some(
            match e.value {
                Some(v) => v,
                None => Seq::<char>::empty(),
            },
        ),
        e.input_type == Some("submit"@) ==> input_value(e) is None,
        e.input_type == Some("radio"@) && !e.checked ==> input_value(e) is None,
        e.input_type == Some("radio"@) && e.checked ==> input_value(e) == Some(
            match e.value {
                Some(v) => v,
                None => "on"@,
            },
        ),
{
    reveal_strlit("text");
    reveal_strlit("radio");
    reveal_strlit("checkbox");
    reveal_strlit("submit");
    reveal_strlit("button");
    reveal_strlit("file");
    reveal_strlit("image");
    reveal_strlit("reset");
    assert("text"@[0] != "radio"@[0] && "text"@[0] != "checkbox"@[0] && "text"@[0] != "submit"@[0]
        && "text"@[0] != "button"@[0] && "text"@[0] != "file"@[0] && "text"@[0] != "image"@[0]
        && "text"@[0] != "reset"@[0]);
    assert("submit"@[0] != "radio"@[0] && "submit"@[0] != "checkbox"@[0]);
    assert("radio"@[0] != "checkbox"@[0]);
}

/// The fields after reading the inputs in order (a later input of the same
/// name wins).
pub open spec fn apply_inputs(m: Map<Seq<char>, Seq<char>>, s: Seq<InputElementView>) -> Map<
    Seq<char>,
    Seq<char>,
>
    decreases s.len(),
{
    if s.len() == 0 {
        m
    } else {
        let prev = apply_inputs(m, s.drop_last());
        let e = s.last();
        match (e.name, input_value(e)) {
            (Some(n), Some(v)) => prev.insert(n, v),
            _ => prev,
        }
    }
}

/// The first selected option, if any.
pub open spec fn first_selected(opts: Seq<OptionElementView>) -> Option<OptionElementView>
    decreases opts.len(),
{
    if opts.len() == 0 {
        None
    } else if opts[0].selected {
        Some(opts[0])
    } else {
        first_selected(opts.drop_first())
    }
}

/// The fields after reading the selects in order: a named select gives the
/// value of its first selected option, if that option has one.
pub open spec fn apply_selects(m: Map<Seq<char>, Seq<char>>, s: Seq<SelectElementView>) -> Map<
    Seq<char>,
    Seq<char>,
>
    decreases s.len(),
{
    if s.len() == 0 {
        m
    } else {
        let prev = apply_selects(m, s.drop_last());
        let e = s.last();
        match (e.name, first_selected(e.options)) {
            (Some(n), Some(o)) => match o.value {
                Some(v) => prev.insert(n, v),
                None => prev,
            },
            _ => prev,
        }
    }
}

/// The form fields of a page: its inputs first, then its selects.
pub open spec fn form_fields(inputs: Seq<InputElementView>, selects: Seq<SelectElementView>) -> Map<
    Seq<char>,
    Seq<char>,
> {
    apply_selects(apply_inputs(Map::empty(), inputs), selects)
}

fn input_value_exec(e: &InputElement) -> (r: Option<String>)
    ensures
        opt_view(r) == input_value(e@),
{
    let t: &str = match &e.input_type {
        Some(t) => t.as_str(),
        None => "text",
    };
    if str_eq(t, "radio") || str_eq(t, "checkbox") {
        if e.checked {
            Some(
                match &e.value {
                    Some(v) => v.clone(),
                    None => owned("on"),
                },
            )
        } else {
            None
        }
    } else if str_eq(t, "submit") || str_eq(t, "button") || str_eq(t, "file") || str_eq(
        t,
        "image",
    ) || str_eq(t, "reset") {
        None
    } else {
        Some(
            match &e.value {
                Some(v) => v.clone(),
                None => String::new(),
            },
        )
    }
}

fn first_selected_exec(opts: &Vec<OptionElement>) -> (r: Option<usize>)
    ensures
        match first_selected(option_views(opts@)) {
            Some(o) => r matches Some(i) && i < opts@.len() && opts@[i as int]@ == o,
            None => r is None,
        },
{
    let ghost all = option_views(opts@);
    let mut i: usize = 0;
    assert(all.skip(0) == all);
    while i < opts.len()
        invariant
            i <= opts@.len(),
            all == option_views(opts@),
            first_selected(all) == first_selected(all.skip(i as int)),
        decreases opts.len() - i,
    {
        assert(all.skip(i as int)[0] == opts@[i as int]@);
        if opts[i].selected {
            return Some(i);
        }
        assert(all.skip(i as int).drop_first() == all.skip(i + 1));
        i = i + 1;
    }
    assert(all.skip(i as int).len() == 0);
    None
}

/// The form fields that a page's elements give: every named input's value
/// (see `input_value`), then every named select's first selected option.
pub fn form_fields_from_elements(inputs: &Vec<InputElement>, selects: &Vec<SelectElement>) -> (r:
    FieldMap<String>)
    ensures
        r@ == form_fields(input_views(inputs@), select_views(selects@)),
{
    let mut fields: FieldMap<String> = FieldMap::new();
    let ghost iv = input_views(inputs@);
    let mut i: usize = 0;
    while i < inputs.len()
        invariant
            i <= inputs@.len(),
            iv == input_views(inputs@),
            fields@ == apply_inputs(Map::empty(), iv.take(i as int)),
        decreases inputs.len() - i,
    {
        let e = &inputs[i];
        proof {
            assert(iv.take(i + 1).drop_last() == iv.take(i as int));
            assert(iv.take(i + 1).last() == e@);
        }
        if let Some(name) = &e.name {
            if let Some(v) = input_value_exec(e) {
                fields.insert(name.clone(), v);
            }
        }
        i = i + 1;
    }
    assert(iv.take(inputs@.len() as int) == iv);
    let ghost base = fields@;
    let ghost sv = select_views(selects@);
    let mut k: usize = 0;
    while k < selects.len()
        invariant
            k <= selects@.len(),
            sv == select_views(selects@),
            fields@ == apply_selects(base, sv.take(k as int)),
        decreases selects.len() - k,
    {
        let e = &selects[k];
        proof {
            assert(sv.take(k + 1).drop_last() == sv.take(k as int));
            assert(sv.take(k + 1).last() == e@);
        }
        if let Some(name) = &e.name {
            if let Some(j) = first_selected_exec(&e.options) {
                if let Some(v) = &e.options[j].value {
                    fields.insert(name.clone(), v.clone());
                }
            }
        }
        k = k + 1;
    }
    assert(sv.take(selects@.len() as int) == sv);
    fields
}

/// Every named input/select's current value on a page (see
/// `form_fields_from_elements`).
pub fn scrape_form_fields(html: &str) -> (r: FieldMap<String>)
    ensures
        r@ == form_fields(html_input_elements(html@), html_select_elements(html@)),
{
    let inputs = scrape_inputs(html);
    let selects = scrape_selects(html);
    form_fields_from_elements(&inputs, &selects)
}

/// The map from each id with some text to that text, trimmed.
pub open spec fn text_fields(ids: Seq<Seq<char>>, texts: Seq<Option<Seq<char>>>) -> Map<
    Seq<char>,
    Seq<char>,
>
    decreases ids.len(),
{
    if ids.len() == 0 || texts.len() == 0 {
        Map::empty()
    } else {
        let prev = text_fields(ids.drop_last(), texts.drop_last());
        match texts.last() {
            Some(t) => prev.insert(ids.last(), trim(t)),
            None => prev,
        }
    }
}

pub open spec fn str_views(ids: Seq<&str>) -> Seq<Seq<char>> {
    ids.map_values(|s: &str| s@)
}

pub open spec fn id_texts(html: Seq<char>, ids: Seq<Seq<char>>) -> Seq<Option<Seq<char>>> {
    ids.map_values(|id: Seq<char>| html_text_by_id(html, id))
}

/// The trimmed text of the first element carrying each of the given ids,
/// for read-only display values; an id with no element is left out.
pub fn scrape_text_by_id(html: &str, ids: &[&str]) -> (r: FieldMap<String>)
    ensures
        r@ == text_fields(str_views(ids@), id_texts(html@, str_views(ids@))),
{
    let ghost idv = str_views(ids@);
    let ghost tv = id_texts(html@, idv);
    let mut out: FieldMap<String> = FieldMap::new();
    let mut i: usize = 0;
    while i < ids.len()
        invariant
            i <= ids@.len(),
            idv == str_views(ids@),
            tv == id_texts(html@, idv),
            out@ == text_fields(idv.take(i as int), tv.take(i as int)),
        decreases ids.len() - i,
    {
        let id: &str = ids[i];
        let text = scrape_text(html, id);
        proof {
            assert(idv.take(i + 1).drop_last() == idv.take(i as int));
            assert(tv.take(i + 1).drop_last() == tv.take(i as int));
            assert(idv.take(i + 1).last() == id@);
            assert(tv.take(i + 1).last() == opt_view(text));
        }
        if let Some(t) = text {
            out.insert(owned(id), trim_str(t.as_str()));
        }
        i = i + 1;
    }
    assert(idv.take(ids@.len() as int) == idv);
    assert(tv.take(ids@.len() as int) == tv);
    out
}

} // verus!
