//! The image resolver's decisions: the two-hop authenticated download, the
//! HTML rejection rule, the effective MIME type, the candidate URL order,
//! and the data-URI assembly. The HTTP requests are the host's job.

use base64::Engine as _;
use vstd::prelude::*;
use crate::profile::view_of_opt;
use crate::text::{has_prefix, opt_or_empty, spec_contains, str_contains, str_or_empty,
    str_starts_with};
use crate::transport::SlackFile;
use vstd::string::{StrSliceExecFns, StringExecFns};

verus! {

/// What one HTTP response looks like to the resolver: status code, the
/// redirect target, the content type, and the body bytes.
pub struct HttpResponseModel {
    pub status: u16,
    pub location: Option<String>,
    pub content_type: Option<String>,
    pub body: Vec<u8>,
}

/// A redirection status code.
pub open spec fn spec_is_redirect(status: u16) -> bool {
    300 <= status && status <= 399
}

/// A success status code.
pub open spec fn spec_is_success(status: u16) -> bool {
    200 <= status && status <= 299
}

/// What the first, authenticated request led to.
pub enum FirstHop {
    /// Follow this target with a second, unauthenticated request.
    Redirect(String),
    /// The response itself carries the file.
    Direct,
    /// No file can be had from this URL.
    Failed,
}

/// Decide on the first hop's response: a redirect is followed via its
/// target (without forwarding the credential), a success is used directly,
/// and anything else fails.
pub fn first_hop_step(resp: &HttpResponseModel) -> (r: FirstHop)
    ensures
        spec_is_redirect(resp.status) && resp.location is Some ==> (r matches FirstHop::Redirect(u)
            && u@ == opt_or_empty(resp.location)),
        spec_is_redirect(resp.status) && resp.location is None ==> r is Failed,
        !spec_is_redirect(resp.status) && spec_is_success(resp.status) ==> r is Direct,
        !spec_is_redirect(resp.status) && !spec_is_success(resp.status) ==> r is Failed,
{
    if 300 <= resp.status && resp.status <= 399 {
        match &resp.location {
            Some(u) => FirstHop::Redirect(u.clone()),
            None => FirstHop::Failed,
        }
    } else if 200 <= resp.status && resp.status <= 299 {
        FirstHop::Direct
    } else {
        FirstHop::Failed
    }
}

/// The number of characters before the first `;`, from position `i` on.
pub open spec fn before_semi_count(s: Seq<char>, i: int) -> nat
    decreases s.len() - i,
    when 0 <= i <= s.len()
{
    if i < s.len() && s[i] != ';' {
        1 + before_semi_count(s, i + 1)
    } else {
        0
    }
}

/// The content type up to its first parameter separator.
pub open spec fn spec_before_semi(s: Seq<char>) -> Seq<char> {
    s.subrange(0, before_semi_count(s, 0) as int)
}

/// The MIME type recorded for the file: the content type (up to its first
/// parameter) when it names an image, else the declared type.
pub open spec fn spec_effective_mime(declared: Seq<char>, ct: Seq<char>) -> Seq<char> {
    if has_prefix(ct, "image/"@) {
        spec_before_semi(ct)
    } else {
        declared
    }
}

proof fn lemma_before_semi_bounds(s: Seq<char>, i: int)
    requires
        0 <= i <= s.len(),
    ensures
        i + before_semi_count(s, i) <= s.len(),
        forall|j: int| i <= j < i + before_semi_count(s, i) ==> s[j] != ';',
        i + before_semi_count(s, i) < s.len() ==> s[i + before_semi_count(s, i)] == ';',
    decreases s.len() - i,
{
    if i < s.len() && s[i] != ';' {
        lemma_before_semi_bounds(s, i + 1);
    }
}

/// The content type up to its first parameter separator.
fn before_semi(s: &str) -> (r: String)
    ensures
        r@ == spec_before_semi(s@),
{
    let n = s.unicode_len();
    let mut i: usize = 0;
    while i < n
        invariant
            i <= n,
            n == s@.len(),
            forall|j: int| 0 <= j < i ==> s@[j] != ';',
        decreases n - i,
    {
        if s.get_char(i) == ';' {
            proof {
                lemma_before_semi_bounds(s@, 0);
                lemma_semi_count_value(s@, i as int);
            }
            return s.substring_char(0, i).to_owned();
        }
        i = i + 1;
    }
    proof {
        lemma_semi_count_value(s@, n as int);
        assert(s@.subrange(0, n as int) =~= s@);
    }
    s.substring_char(0, n).to_owned()
}

/// When every character before `k` differs from `;` and `k` is either the
/// end or a `;`, the count from the start is exactly `k`.
proof fn lemma_semi_count_value(s: Seq<char>, k: int)
    requires
        0 <= k <= s.len(),
        forall|j: int| 0 <= j < k ==> s[j] != ';',
        k < s.len() ==> s[k] == ';',
    ensures
        before_semi_count(s, 0) == k,
{
    lemma_semi_count_from(s, 0, k);
}

proof fn lemma_semi_count_from(s: Seq<char>, i: int, k: int)
    requires
        0 <= i <= k <= s.len(),
        forall|j: int| i <= j < k ==> s[j] != ';',
        k < s.len() ==> s[k] == ';',
    ensures
        before_semi_count(s, i) == k - i,
    decreases k - i,
{
    if i < k {
        lemma_semi_count_from(s, i + 1, k);
    }
}

/// The encoding of a byte sequence by the standard base64 alphabet with
/// padding. Its value is fixed by the bytes alone.
pub uninterp spec fn base64_standard_of(bytes: Seq<u8>) -> Seq<char>;

/// Relies on base64's `Engine::encode` with the `STANDARD` engine: the
/// encoding is a function of the input bytes alone, and an empty input
/// encodes to an empty string.
#[verifier::external_body]
fn base64_encode(bytes: &Vec<u8>) -> (r: String)
    requires
        bytes@.len() / 3 + 1 <= usize::MAX / 4,
    ensures
        r@ == base64_standard_of(bytes@),
        bytes@.len() == 0 ==> r@.len() == 0,
{
    base64::engine::general_purpose::STANDARD.encode(bytes)
}

/// The outcome of encoding one response body: an HTML content type means an
/// error page and yields nothing; otherwise a data URI under the effective
/// MIME type.
pub open spec fn spec_encode_outcome(declared: Seq<char>, ct: Seq<char>, body: Seq<u8>)
    -> Option<Seq<char>> {
    if spec_contains(ct, "text/html"@) {
        None
    } else {
        Some(
            "data:"@ + spec_effective_mime(declared, ct) + ";base64,"@
                + base64_standard_of(body),
        )
    }
}

/// Encode a fetched file as an inline data URI, or reject it when the
/// content type names an HTML page.
pub fn encode_image_response(declared_mime: &str, content_type: &Option<String>, body: Vec<u8>)
    -> (r: Option<String>)
    requires
        body@.len() / 3 + 1 <= usize::MAX / 4,
    ensures
        view_of_opt(r) == spec_encode_outcome(declared_mime@, opt_or_empty(*content_type), body@),
{
    let ct = str_or_empty(content_type);
    if str_contains(ct.as_str(), "text/html") {
        return None;
    }
    let mime = if str_starts_with(ct.as_str(), "image/") {
        before_semi(ct.as_str())
    } else {
        declared_mime.to_owned()
    };
    let encoded = base64_encode(&body);
    let data_url = "data:".to_owned()
        .concat(mime.as_str())
        .concat(";base64,")
        .concat(encoded.as_str());
    Some(data_url)
}

/// The outcome of the two-hop download: a redirect is followed once without
/// the credential; an HTML answer on either path yields nothing.
pub open spec fn spec_two_hop_outcome(
    declared: Seq<char>,
    first: HttpResponseModel,
    second: Option<HttpResponseModel>,
) -> Option<Seq<char>> {
    if spec_is_redirect(first.status) {
        match first.location {
            None => None,
            Some(_) => match second {
                None => None,
                Some(sec) => if spec_is_success(sec.status) {
                    spec_encode_outcome(declared, opt_or_empty(sec.content_type), sec.body@)
                } else {
                    None
                },
            },
        }
    } else if spec_is_success(first.status) {
        spec_encode_outcome(declared, opt_or_empty(first.content_type), first.body@)
    } else {
        None
    }
}

/// Encode the second hop's response, which must itself be a success.
pub fn second_hop_step(declared_mime: &str, resp: HttpResponseModel) -> (r: Option<String>)
    requires
        resp.body@.len() / 3 + 1 <= usize::MAX / 4,
    ensures
        view_of_opt(r) == (if spec_is_success(resp.status) {
            spec_encode_outcome(declared_mime@, opt_or_empty(resp.content_type), resp.body@)
        } else {
            None
        }),
{
    if 200 <= resp.status && resp.status <= 299 {
        encode_image_response(declared_mime, &resp.content_type, resp.body)
    } else {
        None
    }
}

/// A redirect whose target answers with an HTML content type yields no
/// attachment, whatever else the second response holds.
pub proof fn lemma_redirect_html_rejected(
    declared: Seq<char>,
    first: HttpResponseModel,
    second: HttpResponseModel,
)
    requires
        spec_is_redirect(first.status),
        spec_contains(opt_or_empty(second.content_type), "text/html"@),
    ensures
        spec_two_hop_outcome(declared, first, Some(second)) is None,
{
}

/// Whether an attachment is an image by its declared MIME type.
pub fn file_is_image(file: &SlackFile) -> (r: bool)
    ensures
        r == has_prefix(opt_or_empty(file.mimetype), "image/"@),
{
    let mime = str_or_empty(&file.mimetype);
    str_starts_with(mime.as_str(), "image/")
}

/// The candidate URLs of one attachment, in download priority order.
pub open spec fn spec_candidates(file: SlackFile) -> Seq<Seq<char>> {
    opt_seq(file.url_private_download) + opt_seq(file.thumb_480) + opt_seq(file.thumb_360)
        + opt_seq(file.url_private)
}

/// The zero- or one-element sequence an optional string denotes.
pub open spec fn opt_seq(o: Option<String>) -> Seq<Seq<char>> {
    match o {
        Some(s) => seq![s@],
        None => Seq::empty(),
    }
}

/// The candidate URLs to try for one attachment: the authenticated download
/// URL, then the thumbnails from larger to smaller, then the generic
/// private URL.
pub fn candidate_urls(file: &SlackFile) -> (r: Vec<String>)
    ensures
        r@.map_values(|s: String| s@) == spec_candidates(*file),
{
    let mut r: Vec<String> = Vec::new();
    if let Some(u) = &file.url_private_download {
        r.push(u.clone());
    }
    if let Some(u) = &file.thumb_480 {
        r.push(u.clone());
    }
    if let Some(u) = &file.thumb_360 {
        r.push(u.clone());
    }
    if let Some(u) = &file.url_private {
        r.push(u.clone());
    }
    proof {
        assert(r@.map_values(|s: String| s@) =~= spec_candidates(*file));
    }
    r
}

} // verus!
