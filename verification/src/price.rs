//! Extracting the monitored price from a fetched page.
//!
//! The page embeds the price in a script element: the first script whose
//! text mentions the marker key and carries a brace-delimited span is taken,
//! the span between its first `{` and its last `}` is parsed as JSON, and
//! the value under `product.currentPrice` is the observed price. Fetching
//! the page is the caller's business: [`extract_price`] works on the page's
//! text alone. The two places where an outside crate does the work — turning
//! the page into script texts, and reading the JSON span — stand behind
//! trusted wrappers; everything in between is verified.
//!
//! A script whose braces do not delimit a span (no `{`, no `}`, or the
//! first `{` not before the last `}`) is skipped, like one without the
//! marker key.

use vstd::prelude::*;
use vstd::slice::slice_subrange;

verus! {

/// Why no price could be extracted from a page.
#[derive(Clone, Copy, Debug, PartialEq, Eq, Structural)]
pub enum FetchError {
    /// No script mentions the marker key around a brace-delimited span.
    ScriptNotFound,
    /// The span between the braces is not well-formed JSON.
    MalformedJson,
    /// The JSON has no "product" key.
    ProductKeyMissing,
    /// The "product" value has no "currentPrice" key.
    PriceKeyMissing,
}

/// The text of each script element of an HTML document, in document order.
/// Defined by scraper's parsing; stated only where [`script_texts`] applies it.
pub uninterp spec fn script_texts_of(html: Seq<char>) -> Seq<Seq<char>>;

/// Whether a text is well-formed JSON, as serde_json parses it.
pub uninterp spec fn json_wf(json: Seq<char>) -> bool;

/// Whether the JSON text's top value carries a "product" key.
pub uninterp spec fn json_has_product(json: Seq<char>) -> bool;

/// The rendered value under "product"."currentPrice" of the JSON text,
/// when both keys are present.
pub uninterp spec fn json_product_price(json: Seq<char>) -> Option<Seq<char>>;

/// Relies on scraper's `Html::parse_document`, `Html::select` and
/// `ElementRef::text`: the script elements of a document and their
/// concatenated texts are a function of the document's text alone.
#[verifier::external_body]
fn script_texts(html: &str) -> (r: Vec<Vec<char>>)
    ensures
        r@.len() == script_texts_of(html@).len(),
        forall|i: int| 0 <= i < r@.len() ==> #[trigger] r@[i]@ == script_texts_of(html@)[i],
{
    let document = scraper::Html::parse_document(html);
    let selector = match scraper::Selector::parse("script") {
        Ok(s) => s,
        Err(_) => return Vec::new(),
    };
    document
        .select(&selector)
        .map(|element| element.text().collect::<String>().chars().collect())
        .collect()
}

/// What the JSON span holds, as the trusted reader reports it.
enum PriceExtract {
    Malformed,
    NoProduct,
    NoPrice,
    Price(String),
}

/// Relies on serde_json's `from_str` and `Value::get` (and `Display` for
/// rendering the found value): whether a text parses as JSON, and what
/// stands under its "product" and "currentPrice" keys, are functions of the
/// text alone.
#[verifier::external_body]
fn json_current_price(json: &[char]) -> (r: PriceExtract)
    ensures
        (r is Malformed) == !json_wf(json@),
        (r is NoProduct) == (json_wf(json@) && !json_has_product(json@)),
        (r is NoPrice) == (json_wf(json@) && json_has_product(json@) && json_product_price(json@) is None),
        (r is Price) == (json_wf(json@) && json_has_product(json@) && json_product_price(json@) is Some),
        r matches PriceExtract::Price(p) ==> Option::Some(p@) == json_product_price(json@),
{
    let text: String = json.iter().collect();
    match serde_json::from_str::<serde_json::Value>(&text) {
        Err(_) => PriceExtract::Malformed,
        Ok(value) => match value.get("product") {
            None => PriceExtract::NoProduct,
            Some(product) => match product.get("currentPrice") {
                None => PriceExtract::NoPrice,
                Some(price) => PriceExtract::Price(price.to_string()),
            },
        },
    }
}

/// The key that marks the script holding the price.
pub open spec fn price_key() -> Seq<char> {
    "currentPrice"@
}

/// `pat` occurs in `s` at position `i`.
pub open spec fn contains_at(s: Seq<char>, pat: Seq<char>, i: int) -> bool {
    0 <= i && i + pat.len() <= s.len() && s.subrange(i, i + pat.len()) == pat
}

/// `pat` occurs somewhere in `s`.
pub open spec fn contains_seq(s: Seq<char>, pat: Seq<char>) -> bool {
    exists|i: int| contains_at(s, pat, i)
}

/// The position of the first occurrence of `c` in `s`.
pub open spec fn first_index(s: Seq<char>, c: char) -> Option<int>
    decreases s.len(),
{
    if s.len() == 0 {
        Option::None
    } else if s[0] == c {
        Option::Some(0)
    } else {
        match first_index(s.drop_first(), c) {
            Option::Some(i) => Option::Some(i + 1),
            Option::None => Option::None,
        }
    }
}

/// The position of the last occurrence of `c` in `s`.
pub open spec fn last_index(s: Seq<char>, c: char) -> Option<int>
    decreases s.len(),
{
    if s.len() == 0 {
        Option::None
    } else if s.last() == c {
        Option::Some(s.len() - 1)
    } else {
        last_index(s.drop_last(), c)
    }
}

/// `script` mentions `key`, and its first `{` stands before its last `}`.
pub open spec fn has_span(script: Seq<char>, key: Seq<char>) -> bool {
    contains_seq(script, key) && {
        let open = first_index(script, '{');
        let close = last_index(script, '}');
        open is Some && close is Some && open->0 < close->0
    }
}

/// A script the extraction takes: it mentions the marker key, and its first
/// `{` stands before its last `}`.
pub open spec fn qualifying(script: Seq<char>) -> bool {
    has_span(script, price_key())
}

/// The brace-delimited span of a qualifying script.
pub open spec fn json_span(script: Seq<char>) -> Seq<char>
    recommends
        qualifying(script),
{
    script.subrange(first_index(script, '{')->0, last_index(script, '}')->0 + 1)
}

/// The price a JSON span yields, or why it yields none.
pub open spec fn extract_from_json(json: Seq<char>) -> Result<Seq<char>, FetchError> {
    if !json_wf(json) {
        Result::Err(FetchError::MalformedJson)
    } else if !json_has_product(json) {
        Result::Err(FetchError::ProductKeyMissing)
    } else {
        match json_product_price(json) {
            Option::Some(p) => Result::Ok(p),
            Option::None => Result::Err(FetchError::PriceKeyMissing),
        }
    }
}

/// The price the first qualifying script yields, scanning in document order.
pub open spec fn extract_from_scripts(scripts: Seq<Seq<char>>) -> Result<Seq<char>, FetchError>
    decreases scripts.len(),
{
    if scripts.len() == 0 {
        Result::Err(FetchError::ScriptNotFound)
    } else if qualifying(scripts[0]) {
        extract_from_json(json_span(scripts[0]))
    } else {
        extract_from_scripts(scripts.drop_first())
    }
}

/// The observed price of a page, or why none could be extracted.
pub open spec fn spec_extract_price(html: Seq<char>) -> Result<Seq<char>, FetchError> {
    extract_from_scripts(script_texts_of(html))
}

/// The characters of a string slice, in order.
fn chars_of(s: &str) -> (r: Vec<char>)
    ensures
        r@ == s@,
{
    let n = s.unicode_len();
    let mut r: Vec<char> = Vec::new();
    let mut i: usize = 0;
    while i < n
        invariant
            n == s@.len(),
            0 <= i <= n,
            r@ == s@.subrange(0, i as int),
        decreases n - i,
    {
        r.push(s.get_char(i));
        proof {
            assert(s@.subrange(0, i as int).push(s@[i as int]) =~= s@.subrange(0, i as int + 1));
        }
        i = i + 1;
    }
    proof {
        assert(s@.subrange(0, n as int) =~= s@);
    }
    r
}

/// Whether `pat` occurs in `hay`.
fn contains_slice(hay: &[char], pat: &[char]) -> (r: bool)
    ensures
        r == contains_seq(hay@, pat@),
{
    let n = hay.len();
    let m = pat.len();
    if m > n {
        assert(forall|i: int| !contains_at(hay@, pat@, i));
        return false;
    }
    let mut i: usize = 0;
    while i <= n - m
        invariant
            n == hay@.len(),
            m == pat@.len(),
            m <= n,
            0 <= i <= n - m + 1,
            forall|k: int| 0 <= k < i ==> !contains_at(hay@, pat@, k),
        decreases n - m + 1 - i,
    {
        let mut j: usize = 0;
        while j < m && hay[i + j] == pat[j]
            invariant
                n == hay@.len(),
                m == pat@.len(),
                i + m <= n,
                0 <= j <= m,
                forall|l: int| 0 <= l < j ==> hay@[i + l] == pat@[l],
            decreases m - j,
        {
            j = j + 1;
        }
        if j == m {
            proof {
                assert(hay@.subrange(i as int, i as int + m as int) =~= pat@);
                assert(contains_at(hay@, pat@, i as int));
            }
            return true;
        }
        proof {
            assert(hay@.subrange(i as int, i as int + m as int)[j as int] != pat@[j as int]);
            assert(!contains_at(hay@, pat@, i as int));
        }
        i = i + 1;
    }
    proof {
        assert(forall|k: int| contains_at(hay@, pat@, k) ==> 0 <= k <= n - m);
    }
    false
}

/// The first occurrence of `c` is where the forward scan stops.
proof fn lemma_first_index_at(s: Seq<char>, c: char, i: int)
    requires
        0 <= i < s.len(),
        s[i] == c,
        forall|j: int| 0 <= j < i ==> s[j] != c,
    ensures
        first_index(s, c) == Option::Some(i),
    decreases i,
{
    if i > 0 {
        lemma_first_index_at(s.drop_first(), c, i - 1);
    }
}

proof fn lemma_first_index_none(s: Seq<char>, c: char)
    requires
        forall|j: int| 0 <= j < s.len() ==> s[j] != c,
    ensures
        first_index(s, c) is None,
    decreases s.len(),
{
    if s.len() > 0 {
        lemma_first_index_none(s.drop_first(), c);
    }
}

/// The last occurrence of `c` is where the backward scan stops.
proof fn lemma_last_index_at(s: Seq<char>, c: char, i: int)
    requires
        0 <= i < s.len(),
        s[i] == c,
        forall|j: int| i < j < s.len() ==> s[j] != c,
    ensures
        last_index(s, c) == Option::Some(i),
    decreases s.len(),
{
    if i < s.len() - 1 {
        lemma_last_index_at(s.drop_last(), c, i);
    }
}

proof fn lemma_last_index_none(s: Seq<char>, c: char)
    requires
        forall|j: int| 0 <= j < s.len() ==> s[j] != c,
    ensures
        last_index(s, c) is None,
    decreases s.len(),
{
    if s.len() > 0 {
        lemma_last_index_none(s.drop_last(), c);
    }
}

/// The position of the first occurrence of `c` in `s`, scanning forward.
fn find_first(s: &[char], c: char) -> (r: Option<usize>)
    ensures
        r matches Some(i) ==> i < s@.len() && first_index(s@, c) == Option::Some(i as int),
        r is None ==> first_index(s@, c) is None,
{
    let n = s.len();
    let mut i: usize = 0;
    while i < n
        invariant
            n == s@.len(),
            0 <= i <= n,
            forall|j: int| 0 <= j < i ==> s@[j] != c,
        decreases n - i,
    {
        if s[i] == c {
            proof {
                lemma_first_index_at(s@, c, i as int);
            }
            return Some(i);
        }
        i = i + 1;
    }
    proof {
        lemma_first_index_none(s@, c);
    }
    None
}

/// The position of the last occurrence of `c` in `s`, scanning backward.
fn find_last(s: &[char], c: char) -> (r: Option<usize>)
    ensures
        r matches Some(i) ==> i < s@.len() && last_index(s@, c) == Option::Some(i as int),
        r is None ==> last_index(s@, c) is None,
{
    let n = s.len();
    let mut i: usize = n;
    while i > 0
        invariant
            n == s@.len(),
            0 <= i <= n,
            forall|j: int| i <= j < n ==> s@[j] != c,
        decreases i,
    {
        i = i - 1;
        if s[i] == c {
            proof {
                lemma_last_index_at(s@, c, i as int);
            }
            return Some(i);
        }
    }
    proof {
        lemma_last_index_none(s@, c);
    }
    None
}

/// Find the span the extraction would read: `key` must occur, and the first
/// `{` must stand before the last `}`.
fn find_span(script: &[char], key: &[char]) -> (r: Option<(usize, usize)>)
    ensures
        r matches Some(span) ==> has_span(script@, key@) && span.1 < script@.len()
            && first_index(script@, '{') == Option::Some(span.0 as int) && last_index(script@, '}')
            == Option::Some(span.1 as int),
        r is None ==> !has_span(script@, key@),
{
    if contains_slice(script, key) {
        if let Some(i) = find_first(script, '{') {
            if let Some(j) = find_last(script, '}') {
                if i < j {
                    return Some((i, j));
                }
            }
        }
    }
    None
}

/// Extract the observed price from a page's text: take the first script
/// that mentions the marker key around a brace-delimited span, read that
/// span as JSON, and hand back the value under `product.currentPrice` — or
/// say exactly why there is none, as [`spec_extract_price`] lays down.
pub fn extract_price(html: &str) -> (r: Result<String, FetchError>)
    ensures
        r matches Ok(p) ==> spec_extract_price(html@) == Result::<Seq<char>, FetchError>::Ok(p@),
        r matches Err(e) ==> spec_extract_price(html@) == Result::<Seq<char>, FetchError>::Err(e),
{
    let scripts = script_texts(html);
    let key = chars_of("currentPrice");
    let n = scripts.len();
    proof {
        assert(script_texts_of(html@).skip(0) =~= script_texts_of(html@));
    }
    let mut idx: usize = 0;
    while idx < n
        invariant
            n == scripts@.len(),
            n == script_texts_of(html@).len(),
            forall|i: int| 0 <= i < n ==> #[trigger] scripts@[i]@ == script_texts_of(html@)[i],
            key@ == price_key(),
            0 <= idx <= n,
            extract_from_scripts(script_texts_of(html@).skip(idx as int)) == spec_extract_price(
                html@,
            ),
        decreases n - idx,
    {
        let script = &scripts[idx];
        let ghost tail = script_texts_of(html@).skip(idx as int);
        proof {
            assert(tail.len() > 0);
            assert(tail[0] == scripts@[idx as int]@);
        }
        if let Some(span) = find_span(script.as_slice(), key.as_slice()) {
            assert(qualifying(tail[0]));
            let script_len = script.len();
            assert(span.1 < script_len);
            let json = slice_subrange(script.as_slice(), span.0, span.1 + 1);
            assert(json@ == json_span(tail[0]));
            let verdict = json_current_price(json);
            assert(extract_from_scripts(tail) == extract_from_json(json@));
            return match verdict {
                PriceExtract::Malformed => Err(FetchError::MalformedJson),
                PriceExtract::NoProduct => Err(FetchError::ProductKeyMissing),
                PriceExtract::NoPrice => Err(FetchError::PriceKeyMissing),
                PriceExtract::Price(p) => Ok(p),
            };
        }
        proof {
            assert(!qualifying(tail[0]));
            assert(tail.drop_first() =~= script_texts_of(html@).skip(idx as int + 1));
            assert(extract_from_scripts(tail) == extract_from_scripts(tail.drop_first()));
        }
        idx = idx + 1;
    }
    proof {
        assert(script_texts_of(html@).skip(n as int).len() == 0);
    }
    Err(FetchError::ScriptNotFound)
}

} // verus!
