use vstd::prelude::*;
use vstd::string::StringExecFns;
use vstd::string::StringSliceAdditionalSpecFns;
use crate::error::LabelError;
use crate::scan::{
    ASTERISK, ByteClass, GREATER, HASH, OPEN_BRACE, SLASH, byte_at, byte_at_exec, run_end, run_end_exec,
};

verus! {

/// The directory that holds the templates.
pub const TEMPLATE_DIR: &'static str = "./templates/";

/// The suffix of a template file.
pub const TEMPLATE_SUFFIX: &'static str = ".html.hbs";

/// The file that holds the template of a given name.
pub fn template_path(template_name: &str) -> (r: String)
    ensures
        r@ == TEMPLATE_DIR@ + template_name@ + TEMPLATE_SUFFIX@,
{
    TEMPLATE_DIR.to_owned().concat(template_name).concat(TEMPLATE_SUFFIX)
}

/// Whether a tag opens at `i` whose kind byte, after `{{` and the tag filler
/// (spaces, whitespace controls, `#`, `{`), is `kind`: `>` for partials, `*`
/// for decorators, `/` for closing tags.
pub open spec fn tag_kind_at(t: Seq<u8>, i: int, kind: u8) -> bool {
    byte_at(t, i, OPEN_BRACE) && byte_at(t, i + 1, OPEN_BRACE) && byte_at(
        t,
        run_end(t, i + 2, ByteClass::TagFiller),
        kind,
    )
}

/// Whether a partial block (`{{#> ..}}`) opens at `i`: a partial tag with a
/// `#` before its kind.
pub open spec fn partial_block_at(t: Seq<u8>, i: int) -> bool {
    tag_kind_at(t, i, GREATER) && exists|m: int|
        i + 2 <= m < run_end(t, i + 2, ByteClass::TagFiller) && t[m] == HASH
}

/// `inline` in ASCII.
pub open spec fn inline_name() -> Seq<u8> {
    seq![105u8, 110, 108, 105, 110, 101]
}

/// Whether a tag that may close an inline declaration (`{{/inline}}`) opens at `i`.
pub open spec fn inline_close_at(t: Seq<u8>, i: int) -> bool {
    let k = run_end(t, run_end(t, i + 2, ByteClass::TagFiller) + 1, ByteClass::TagFiller);
    tag_kind_at(t, i, SLASH) && k + 6 <= t.len() && t.subrange(k, k + 6) == inline_name()
}

/// Whether rendering a template could include partials without end.
///
/// A fresh handlebars registry knows no partials and one decorator, `inline`,
/// which declares a partial whose body runs up to a matching `{{/inline}}`.
/// Handlebars sets no depth limit on partials: a partial block may include
/// itself through `@partial-block`, and an inline partial may include itself.
/// So a template is refused when it holds a partial block, or a partial tag
/// after a decorator tag and before a later `{{/inline}}` tag, where any inline
/// body must lie. Other partial tags name partials that are not there, or
/// inline partials whose bodies include none, and render finitely.
pub open spec fn may_recurse(t: Seq<u8>) -> bool {
    (exists|i: int| 0 <= i < t.len() && #[trigger] partial_block_at(t, i)) || exists|
        i: int,
        k: int,
        m: int,
    |
        0 <= i < k < m < t.len() && #[trigger] tag_kind_at(t, i, ASTERISK) && #[trigger] tag_kind_at(
            t,
            k,
            GREATER,
        ) && #[trigger] inline_close_at(t, m)
}

fn tag_kind_exec(t: &[u8], i: usize, kind: u8) -> (r: Option<usize>)
    requires
        i < t@.len(),
    ensures
        (r is Some) == tag_kind_at(t@, i as int, kind),
        r matches Some(k) ==> k as int == run_end(t@, i + 2, ByteClass::TagFiller) && i + 2 <= k < t@.len(),
{
    let n: usize = t.len();
    if !(i + 1 < n && t[i] == OPEN_BRACE && t[i + 1] == OPEN_BRACE) {
        return None;
    }
    let k = run_end_exec(t, i + 2, ByteClass::TagFiller);
    if byte_at_exec(t, k, kind) {
        Some(k)
    } else {
        None
    }
}

fn partial_block_exec(t: &[u8], i: usize) -> (r: bool)
    requires
        i < t@.len(),
    ensures
        r == partial_block_at(t@, i as int),
{
    match tag_kind_exec(t, i, GREATER) {
        None => false,
        Some(k) => {
            let mut m: usize = i + 2;
            while m < k
                invariant
                    i + 2 <= m <= k,
                    k < t@.len(),
                    k as int == run_end(t@, i + 2, ByteClass::TagFiller),
                    tag_kind_at(t@, i as int, GREATER),
                    forall|x: int| i + 2 <= x < m ==> t@[x] != HASH,
                decreases k - m,
            {
                if t[m] == HASH {
                    assert(i + 2 <= m < run_end(t@, i + 2, ByteClass::TagFiller) && t@[m as int] == HASH);
                    return true;
                }
                m = m + 1;
            }
            false
        },
    }
}

fn inline_close_exec(t: &[u8], i: usize) -> (r: bool)
    requires
        i < t@.len(),
    ensures
        r == inline_close_at(t@, i as int),
{
    let n: usize = t.len();
    match tag_kind_exec(t, i, SLASH) {
        None => false,
        Some(k) => {
            let k2 = run_end_exec(t, k + 1, ByteClass::TagFiller);
            if t.len() < 6 || k2 > t.len() - 6 {
                return false;
            }
            let name: [u8; 6] = [105, 110, 108, 105, 110, 101];
            assert(name@ =~= inline_name());
            let mut j: usize = 0;
            while j < 6
                invariant
                    j <= 6,
                    n == t@.len(),
                    k2 + 6 <= t@.len(),
                    k as int == run_end(t@, i + 2, ByteClass::TagFiller),
                    k2 as int == run_end(t@, k + 1, ByteClass::TagFiller),
                    tag_kind_at(t@, i as int, SLASH),
                    name@ == inline_name(),
                    forall|x: int| 0 <= x < j ==> t@[k2 + x] == name@[x],
                decreases 6 - j,
            {
                if t[k2 + j] != name[j] {
                    assert(t@.subrange(k2 as int, k2 + 6)[j as int] != inline_name()[j as int]);
                    return false;
                }
                j = j + 1;
            }
            assert(t@.subrange(k2 as int, k2 + 6) =~= inline_name());
            true
        },
    }
}

/// Scans a template for what could make handlebars include partials without end.
pub fn may_recurse_exec(t: &[u8]) -> (r: bool)
    ensures
        r == may_recurse(t@),
{
    let n: usize = t.len();
    // The partial blocks, the first decorator tag and the last `{{/inline}}` tag.
    let mut first_decorator: Option<usize> = None;
    let mut last_close: Option<usize> = None;
    let mut i: usize = 0;
    while i < n
        invariant
            n == t@.len(),
            i <= n,
            forall|j: int| 0 <= j < i ==> !#[trigger] partial_block_at(t@, j),
            first_decorator matches Some(p) ==> p < i && tag_kind_at(t@, p as int, ASTERISK),
            forall|j: int|
                0 <= j < i && (first_decorator matches Some(p) ==> j < p) ==> !#[trigger] tag_kind_at(
                    t@,
                    j,
                    ASTERISK,
                ),
            last_close matches Some(q) ==> q < i && inline_close_at(t@, q as int),
            forall|j: int|
                0 <= j < i && (last_close matches Some(q) ==> j > q) ==> !#[trigger] inline_close_at(
                    t@,
                    j,
                ),
        decreases n - i,
    {
        if partial_block_exec(t, i) {
            return true;
        }
        if first_decorator.is_none() && tag_kind_exec(t, i, ASTERISK).is_some() {
            first_decorator = Some(i);
        }
        if inline_close_exec(t, i) {
            last_close = Some(i);
        }
        i = i + 1;
    }
    match (first_decorator, last_close) {
        (Some(p), Some(q)) => {
            if p >= q {
                assert forall|a: int, b: int, c: int|
                    0 <= a < b < c < t@.len() && #[trigger] tag_kind_at(t@, a, ASTERISK)
                        && #[trigger] tag_kind_at(t@, b, GREATER) && #[trigger] inline_close_at(
                        t@,
                        c,
                    ) implies false by {
                    assert(p <= a);
                    assert(c <= q);
                }
                return false;
            }
            assert forall|a: int| 0 <= a < n && #[trigger] tag_kind_at(t@, a, ASTERISK) implies p <= a by {}
            assert forall|c: int| 0 <= c < n && #[trigger] inline_close_at(t@, c) implies c <= q by {}
            let mut k: usize = p + 1;
            while k < q
                invariant
                    p < k <= q < n,
                    n == t@.len(),
                    tag_kind_at(t@, p as int, ASTERISK),
                    inline_close_at(t@, q as int),
                    forall|a: int| 0 <= a < n && #[trigger] tag_kind_at(t@, a, ASTERISK) ==> p <= a,
                    forall|c: int| 0 <= c < n && #[trigger] inline_close_at(t@, c) ==> c <= q,
                    forall|x: int| p < x < k ==> !#[trigger] tag_kind_at(t@, x, GREATER),
                decreases q - k,
            {
                if tag_kind_exec(t, k, GREATER).is_some() {
                    assert(tag_kind_at(t@, p as int, ASTERISK) && tag_kind_at(t@, k as int, GREATER)
                        && inline_close_at(t@, q as int));
                    return true;
                }
                k = k + 1;
            }
            assert forall|a: int, b: int, c: int|
                0 <= a < b < c < t@.len() && #[trigger] tag_kind_at(t@, a, ASTERISK)
                    && #[trigger] tag_kind_at(t@, b, GREATER) && #[trigger] inline_close_at(
                    t@,
                    c,
                ) implies false by {
                assert(p <= a);
                assert(c <= q);
            }
            false
        },
        _ => {
            assert forall|a: int, b: int, c: int|
                0 <= a < b < c < t@.len() && #[trigger] tag_kind_at(t@, a, ASTERISK)
                    && #[trigger] tag_kind_at(t@, b, GREATER) && #[trigger] inline_close_at(
                    t@,
                    c,
                ) implies false by {}
            false
        },
    }
}

/// What handlebars renders from a template text and content, or `None` where
/// it reports an error.
pub uninterp spec fn rendered_of(template: Seq<char>, content: serde_json::Value) -> Option<Seq<char>>;

/// Relies on handlebars' `Registry::render_template`, on a fresh registry: the
/// template text rendered against the content, or its render error. A fresh
/// registry holds no partials, and the result depends on the text and the
/// content alone.
#[verifier::external_body]
fn render_with_handlebars(template: &str, content: &serde_json::Value) -> (r: Result<String, LabelError>)
    requires
        !may_recurse(template.spec_bytes()),
    ensures
        r is Ok <==> rendered_of(template@, *content) is Some,
        r matches Ok(m) ==> rendered_of(template@, *content) == Some(m@),
        r matches Err(e) ==> e == LabelError::RenderError,
{
    match handlebars::Handlebars::new().render_template(template, content) {
        Ok(markup) => Ok(markup),
        Err(_) => Err(LabelError::RenderError),
    }
}

/// Renders the template text, read from the template's file, against the
/// content; `None` stands for a template file that could not be read. A
/// template that could include partials without end (`may_recurse`) is refused
/// as a render error, as handlebars sets no depth limit on partials.
pub fn make_html(template: Option<&str>, content: &serde_json::Value) -> (r: Result<String, LabelError>)
    ensures
        template is None ==> r == Err::<String, LabelError>(LabelError::TemplateNotFound),
        template matches Some(t) ==> (may_recurse(t.spec_bytes()) ==> r == Err::<
            String,
            LabelError,
        >(LabelError::RenderError)),
        template matches Some(t) ==> (!may_recurse(t.spec_bytes()) ==> (r is Ok
            <==> rendered_of(t@, *content) is Some)),
        template matches Some(t) ==> (!may_recurse(t.spec_bytes()) ==> (r matches Ok(
            m,
        ) ==> rendered_of(t@, *content) == Some(m@))),
        template is Some ==> (r matches Err(e) ==> e == LabelError::RenderError),
{
    match template {
        None => Err(LabelError::TemplateNotFound),
        Some(text) => {
            if may_recurse_exec(text.as_bytes()) {
                Err(LabelError::RenderError)
            } else {
                render_with_handlebars(text, content)
            }
        },
    }
}

} // verus!
