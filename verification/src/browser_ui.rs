//! The pages and assets that the server hands to the browser UI.
use vstd::prelude::*;
use crate::network::NetworkConfig;
use crate::text::{
    after_last, chars_after_last, chars_end_with, chars_of, decimal, ends_with, replace_all,
    replace_chars, string_of, trim, trimmed_chars,
};

verus! {

broadcast use vstd::string::group_string_axioms;

/// The page served when the browser UI has not been built.
pub const MISSING_UI_HTML: &'static str = "<html><body><h1>Citybound server is running</h1><p>Browser UI bundle missing. Run `npm run build-browser` to build `cb_browser_ui/dist`.</p></body></html>";

/// `s` without its leading `'/'` characters.
pub open spec fn without_leading_slashes(s: Seq<char>) -> Seq<char>
    decreases s.len(),
{
    if s.len() > 0 && s[0] == '/' {
        without_leading_slashes(s.drop_first())
    } else {
        s
    }
}

/// Whether `s` holds two dots in a row.
pub open spec fn has_double_dot(s: Seq<char>) -> bool {
    exists|i: int| 0 <= i && i + 1 < s.len() && s[i] == '.' && #[trigger] s[i + 1] == '.'
}

/// The asset path that a request path names: the path without leading
/// slashes, unless that is empty or could climb out of the asset folder.
pub open spec fn sanitized_path(path: Seq<char>) -> Option<Seq<char>> {
    let p = without_leading_slashes(path);
    if has_double_dot(p) || p.len() == 0 {
        None
    } else {
        Some(p)
    }
}

/// The asset path that a request path names, or `None` for a path that is
/// empty after its leading slashes or holds `".."`.
pub fn sanitize_asset_path(path: &str) -> (r: Option<&str>)
    ensures
        r matches Some(p) ==> sanitized_path(path@) == Some(p@),
        r is None ==> sanitized_path(path@) is None,
{
    let cs = chars_of(path);
    let n = cs.len();
    let mut a: usize = 0;
    assert(cs@.skip(0) =~= cs@);
    while a < n && cs[a] == '/'
        invariant
            n == cs@.len(),
            cs@ == path@,
            a <= n,
            without_leading_slashes(cs@) == without_leading_slashes(cs@.skip(a as int)),
        decreases n - a,
    {
        assert(cs@.skip(a as int).drop_first() =~= cs@.skip(a + 1));
        a = a + 1;
    }
    let ghost p = cs@.skip(a as int);
    assert(without_leading_slashes(path@) == p);
    if a == n {
        return None;
    }
    let mut i = a;
    while i + 1 < n
        invariant
            n == cs@.len(),
            p == cs@.skip(a as int),
            without_leading_slashes(path@) == p,
            a <= i < n,
            forall|j: int| a <= j < i ==> !(#[trigger] cs@[j] == '.' && cs@[j + 1] == '.'),
        decreases n - i,
    {
        if cs[i] == '.' && cs[i + 1] == '.' {
            assert(p[i - a] == '.' && p[(i - a) + 1] == '.');
            return None;
        }
        i = i + 1;
    }
    assert(!has_double_dot(p)) by {
        if has_double_dot(p) {
            let j = choose|j: int| 0 <= j && j + 1 < p.len() && p[j] == '.' && #[trigger] p[j + 1] == '.';
            assert(cs@[a + j] == '.' && cs@[a + j + 1] == '.');
        }
    }
    Some(path.substring_char(a, n))
}

/// The page with the placeholders in order replaced: the version (trimmed)
/// and the three network numbers.
pub open spec fn render_spec(
    template: Seq<char>,
    version: Seq<char>,
    batch_msg_bytes: nat,
    ok_turn_dist: nat,
    skip_ratio: nat,
) -> Seq<char> {
    let a = replace_all(template, "CB_VERSION"@, trim(version));
    let b = replace_all(a, "CB_BATCH_MESSAGE_BYTES"@, decimal(batch_msg_bytes));
    let c = replace_all(b, "CB_ACCEPTABLE_TURN_DISTANCE"@, decimal(ok_turn_dist));
    replace_all(c, "CB_SKIP_TURNS_PER_TURN_AHEAD"@, decimal(skip_ratio))
}

/// The text of a page template: its UTF-8 decoding, or the page for a missing
/// UI when there is no template or it is not valid UTF-8.
pub open spec fn template_text(template: Option<Seq<u8>>) -> Seq<char> {
    match template {
        Some(bytes) => if vstd::utf8::valid_utf8(bytes) {
            vstd::utf8::decode_utf8(bytes)
        } else {
            MISSING_UI_HTML@
        },
        None => MISSING_UI_HTML@,
    }
}

/// Decodes UTF-8 as `std::str::from_utf8` does.
#[verifier::external_body]
fn utf8_to_str(bytes: &[u8]) -> (r: Option<&str>)
    ensures
        r is Some <==> vstd::utf8::valid_utf8(bytes@),
        r matches Some(s) ==> s@ == vstd::utf8::decode_utf8(bytes@),
{
    std::str::from_utf8(bytes).ok()
}

/// The root page: the template (or the page for a missing UI) with the
/// version and the network settings filled in.
pub fn render_root_html(template: Option<&[u8]>, version: &str, network_config: &NetworkConfig) -> (html: String)
    ensures
        html@ == render_spec(
            template_text(
                match template {
                    Some(b) => Some(b@),
                    None => None,
                },
            ),
            version@,
            network_config.batch_msg_bytes as nat,
            network_config.ok_turn_dist as nat,
            network_config.skip_ratio as nat,
        ),
{
    let text: &str = match template {
        Some(bytes) => match utf8_to_str(bytes) {
            Some(s) => s,
            None => MISSING_UI_HTML,
        },
        None => MISSING_UI_HTML,
    };
    let t = chars_of(text);
    let a = replace_chars(&t, &chars_of("CB_VERSION"), &trimmed_chars(version));
    let b = replace_chars(
        &a,
        &chars_of("CB_BATCH_MESSAGE_BYTES"),
        &chars_of(crate::text::usize_to_decimal(network_config.batch_msg_bytes).as_str()),
    );
    let c = replace_chars(
        &b,
        &chars_of("CB_ACCEPTABLE_TURN_DISTANCE"),
        &chars_of(crate::text::usize_to_decimal(network_config.ok_turn_dist).as_str()),
    );
    let d = replace_chars(
        &c,
        &chars_of("CB_SKIP_TURNS_PER_TURN_AHEAD"),
        &chars_of(crate::text::usize_to_decimal(network_config.skip_ratio).as_str()),
    );
    string_of(&d)
}

proof fn lemma_without_leading_slashes(s: Seq<char>)
    ensures
        without_leading_slashes(s).len() > 0 ==> without_leading_slashes(s)[0] != '/',
    decreases s.len(),
{
    if s.len() > 0 && s[0] == '/' {
        lemma_without_leading_slashes(s.drop_first());
    }
}

/// A path that sanitizing accepts is not empty, does not start at the root
/// and holds no `".."`, so it names a file inside the asset folder.
pub proof fn law_sanitized_paths_stay_inside(path: Seq<char>)
    ensures
        sanitized_path(path) matches Some(p) ==> p.len() > 0 && p[0] != '/' && !has_double_dot(p),
{
    lemma_without_leading_slashes(path);
}

/// The content type that `rouille` gives files with the extension `ext`.
pub uninterp spec fn mime_of_extension(ext: Seq<char>) -> Seq<char>;

/// `rouille::extension_to_mime`: the content type of a file extension.
#[verifier::external_body]
fn extension_mime(ext: &str) -> (m: &'static str)
    ensures
        m@ == mime_of_extension(ext@),
{
    rouille::extension_to_mime(ext)
}

/// How the server answers a request.
pub enum Reply {
    /// The root page, rendered from the template.
    RootPage,
    /// The asset that the request names, with its content type.
    Asset { content_type: &'static str },
    /// A 404 page with this body.
    NotFound { body: String },
}

/// The content type of an asset at `url`: WebAssembly for `.wasm` files,
/// else the type of the part after the last dot.
pub open spec fn asset_content_type(url: Seq<char>) -> Seq<char> {
    if ends_with(url, ".wasm"@) {
        "application/wasm"@
    } else {
        mime_of_extension(after_last(url, '.'))
    }
}

/// How to answer a request: the root page for the root, the asset when one
/// was found for the path, else a 404 page naming the path.
pub fn reply_for(raw_url: &str, url: &str, asset_found: bool) -> (r: Reply)
    ensures
        raw_url@ == "/"@ ==> r is RootPage,
        raw_url@ != "/"@ && asset_found ==> (r matches Reply::Asset { content_type }
            && content_type@ == asset_content_type(url@)),
        raw_url@ != "/"@ && !asset_found ==> (r matches Reply::NotFound { body } && body@
            == "404 error. Not found: "@ + url@),
{
    if crate::network::str_eq(raw_url, "/") {
        Reply::RootPage
    } else if asset_found {
        let cs = chars_of(url);
        if chars_end_with(&cs, &chars_of(".wasm")) {
            Reply::Asset { content_type: "application/wasm" }
        } else {
            let ext = string_of(&chars_after_last(&cs, '.'));
            Reply::Asset { content_type: extension_mime(ext.as_str()) }
        }
    } else {
        let mut body = String::from_str("404 error. Not found: ");
        body.append(url);
        Reply::NotFound { body }
    }
}

/// The asset path that a request's URL names: the URL without its leading
/// character, which must be a single byte.
pub fn asset_path_of_url(url: &str) -> (p: &str)
    requires
        url@.len() > 0,
        (url@[0] as u32) < 0x80,
    ensures
        p@ == url@.drop_first(),
{
    let n = url.unicode_len();
    url.substring_char(1, n)
}

} // verus!
