//! Content-encoding negotiation and response encoding for static files:
//! parsing the `Accept-Encoding` header, choosing an encoder from a fixed
//! preference list, and compressing the response body through outside
//! compression crates behind trusted wrappers.

use vstd::prelude::*;
use vstd::string::StrSliceExecFns;
use crate::strings::chars_of;

verus! {

/// A content encoding the server can answer with.
#[derive(Clone, Copy, PartialEq, Eq, Structural, Debug)]
pub enum EncodingChoice {
    Identity,
    Gzip,
    Deflate,
    Brotli,
}

// ------------------------------------------------------------------
// Accept-Encoding parsing
// ------------------------------------------------------------------
/// The header's tokens: the maximal comma-free pieces of the header, in
/// order; an empty header is one empty token.
pub open spec fn split_commas(s: Seq<char>) -> Seq<Seq<char>>
    decreases s.len(),
{
    if s.len() == 0 {
        seq![s]
    } else if s[0] == ',' {
        seq![Seq::<char>::empty()] + split_commas(s.skip(1))
    } else {
        let rest = split_commas(s.skip(1));
        seq![seq![s[0]] + rest[0]] + rest.skip(1)
    }
}

/// A split always yields at least one token.
pub proof fn lemma_split_commas_len(s: Seq<char>)
    ensures
        split_commas(s).len() >= 1,
    decreases s.len(),
{
    if s.len() != 0 {
        lemma_split_commas_len(s.skip(1));
    }
}

/// Header whitespace around a token.
pub open spec fn is_hspace(c: char) -> bool {
    c == ' ' || c == '\t'
}

/// The token with its leading whitespace removed.
pub open spec fn trim_front(t: Seq<char>) -> Seq<char>
    decreases t.len(),
{
    if t.len() > 0 && is_hspace(t[0]) {
        trim_front(t.skip(1))
    } else {
        t
    }
}

/// The token with its trailing whitespace removed.
pub open spec fn trim_back(t: Seq<char>) -> Seq<char>
    decreases t.len(),
{
    if t.len() > 0 && is_hspace(t.last()) {
        trim_back(t.drop_last())
    } else {
        t
    }
}

/// The token with whitespace removed on both sides.
pub open spec fn trimmed(t: Seq<char>) -> Seq<char> {
    trim_back(trim_front(t))
}

/// `a` reads as `b` once ASCII uppercase is folded to lowercase.
pub open spec fn char_lowers_to(a: char, b: char) -> bool {
    a == b || ('A' as u32 <= a as u32 && a as u32 <= 'Z' as u32 && a as u32 + 32 == b as u32)
}

/// The token equals the (lowercase) name, compared ASCII-case-insensitively.
pub open spec fn matches_ci(t: Seq<char>, lit: Seq<char>) -> bool {
    t.len() == lit.len() && (forall|i: int| 0 <= i < t.len() ==> char_lowers_to(t[i], lit[i]))
}

/// The encoding a single header token names, after trimming and case
/// folding; `None` for a token that names no known encoding.
pub open spec fn token_encoding(t: Seq<char>) -> Option<EncodingChoice> {
    let u = trimmed(t);
    if matches_ci(u, "identity"@) {
        Some(EncodingChoice::Identity)
    } else if matches_ci(u, "gzip"@) {
        Some(EncodingChoice::Gzip)
    } else if matches_ci(u, "deflate"@) {
        Some(EncodingChoice::Deflate)
    } else if matches_ci(u, "br"@) {
        Some(EncodingChoice::Brotli)
    } else {
        None
    }
}

/// The encodings the tokens name, in order; `None` as soon as any token
/// is not a known encoding.
pub open spec fn parse_tokens(ts: Seq<Seq<char>>) -> Option<Seq<EncodingChoice>>
    decreases ts.len(),
{
    if ts.len() == 0 {
        Some(Seq::<EncodingChoice>::empty())
    } else {
        match token_encoding(ts[0]) {
            Option::None => None,
            Option::Some(e) => match parse_tokens(ts.skip(1)) {
                Option::None => None,
                Option::Some(rest) => Some(seq![e] + rest),
            },
        }
    }
}

/// What an `Accept-Encoding` header value means: its comma-separated
/// tokens, each trimmed and case-folded, each naming a known encoding —
/// or nothing, if any token is unknown.
pub open spec fn parse_header(s: Seq<char>) -> Option<Seq<EncodingChoice>> {
    parse_tokens(split_commas(s))
}

/// Tests one character range of `t` against a lowercase name,
/// case-insensitively.
fn eq_ci_range(t: &Vec<char>, lo: usize, hi: usize, lit: &str) -> (r: bool)
    requires
        lo <= hi <= t@.len(),
    ensures
        r == matches_ci(t@.subrange(lo as int, hi as int), lit@),
{
    let n = lit.unicode_len();
    if hi - lo != n {
        return false;
    }
    let ghost u = t@.subrange(lo as int, hi as int);
    let mut i: usize = 0;
    while i < n
        invariant
            i <= n,
            lo <= hi <= t@.len(),
            hi - lo == n,
            n == lit@.len(),
            u == t@.subrange(lo as int, hi as int),
            forall|j: int| 0 <= j < i ==> char_lowers_to(#[trigger] u[j], lit@[j]),
        decreases n - i,
    {
        let a = t[lo + i];
        let b = lit.get_char(i);
        let au: u32 = a as u32;
        let bu: u32 = b as u32;
        let ok = au == bu || ('A' as u32 <= au && au <= 'Z' as u32 && au + 32 == bu);
        proof {
            vstd::utf8::char_u32_cast(a, a as u32);
            vstd::utf8::char_u32_cast(b, b as u32);
        }
        if !ok {
            assert(!char_lowers_to(u[i as int], lit@[i as int]));
            return false;
        }
        i = i + 1;
    }
    true
}

/// The trimmed part of the token, as a character range: the whitespace
/// bounds are found, and the range is matched against the known names.
fn classify_token(t: &Vec<char>) -> (r: Option<EncodingChoice>)
    ensures
        r == token_encoding(t@),
{
    let mut lo: usize = 0;
    proof {
        assert(t@.skip(0) =~= t@);
    }
    while lo < t.len() && (t[lo] == ' ' || t[lo] == '\t')
        invariant
            lo <= t@.len(),
            trim_front(t@) == trim_front(t@.skip(lo as int)),
        decreases t@.len() - lo,
    {
        proof {
            assert(t@.skip(lo as int).skip(1) =~= t@.skip(lo + 1));
        }
        lo = lo + 1;
    }
    proof {
        assert(trim_front(t@) == t@.skip(lo as int));
        assert(t@.skip(lo as int) =~= t@.subrange(lo as int, t@.len() as int));
    }
    let mut hi: usize = t.len();
    while hi > lo && (t[hi - 1] == ' ' || t[hi - 1] == '\t')
        invariant
            lo <= hi <= t@.len(),
            trim_back(t@.skip(lo as int)) == trim_back(t@.subrange(lo as int, hi as int)),
        decreases hi,
    {
        proof {
            assert(t@.subrange(lo as int, hi as int).drop_last() =~= t@.subrange(
                lo as int,
                hi - 1,
            ));
        }
        hi = hi - 1;
    }
    proof {
        assert(trimmed(t@) == t@.subrange(lo as int, hi as int));
    }
    if eq_ci_range(t, lo, hi, "identity") {
        Some(EncodingChoice::Identity)
    } else if eq_ci_range(t, lo, hi, "gzip") {
        Some(EncodingChoice::Gzip)
    } else if eq_ci_range(t, lo, hi, "deflate") {
        Some(EncodingChoice::Deflate)
    } else if eq_ci_range(t, lo, hi, "br") {
        Some(EncodingChoice::Brotli)
    } else {
        None
    }
}

/// The character sequences of a vector of token vectors.
spec fn token_views(ts: Seq<Vec<char>>) -> Seq<Seq<char>> {
    ts.map_values(|t: Vec<char>| t@)
}

/// A token list with the first token extended at the front by `p`.
spec fn prepend_first(p: Seq<char>, ss: Seq<Seq<char>>) -> Seq<Seq<char>> {
    seq![p + ss[0]] + ss.skip(1)
}

/// Splits the header's characters at commas.
fn split_header(cs: &Vec<char>) -> (r: Vec<Vec<char>>)
    ensures
        token_views(r@) == split_commas(cs@),
{
    let ghost s = cs@;
    let mut tokens: Vec<Vec<char>> = Vec::new();
    let mut cur: Vec<char> = Vec::new();
    let mut i: usize = 0;
    proof {
        assert(s.skip(0) =~= s);
        lemma_split_commas_len(s);
        assert(split_commas(s) =~~= prepend_first(Seq::<char>::empty(), split_commas(s)));
        assert(split_commas(s) =~~= token_views(tokens@) + prepend_first(
            cur@,
            split_commas(s.skip(i as int)),
        ));
    }
    while i < cs.len()
        invariant
            i <= s.len(),
            s == cs@,
            split_commas(s) == token_views(tokens@) + prepend_first(
                cur@,
                split_commas(s.skip(i as int)),
            ),
        decreases s.len() - i,
    {
        let ghost old_tokens = tokens@;
        let ghost old_cur = cur@;
        let ghost tail = s.skip(i as int);
        proof {
            assert(tail.len() > 0);
            assert(tail[0] == s[i as int]);
            assert(tail.skip(1) =~= s.skip(i + 1));
            lemma_split_commas_len(s.skip(i + 1));
        }
        let c = cs[i];
        if c == ',' {
            tokens.push(cur);
            cur = Vec::new();
            proof {
                assert(split_commas(tail) =~= seq![Seq::<char>::empty()] + split_commas(
                    s.skip(i + 1),
                ));
                assert(token_views(tokens@) =~= token_views(old_tokens).push(old_cur));
                assert(prepend_first(old_cur, split_commas(tail))[0] =~= old_cur);
                assert(split_commas(s) =~~= token_views(tokens@) + prepend_first(
                    cur@,
                    split_commas(s.skip(i + 1)),
                ));
            }
        } else {
            cur.push(c);
            proof {
                let rest = split_commas(s.skip(i + 1));
                assert(split_commas(tail) =~= seq![seq![s[i as int]] + rest[0]] + rest.skip(1));
                assert(prepend_first(old_cur, split_commas(tail)) =~~= prepend_first(cur@, rest));
                assert(split_commas(s) =~~= token_views(tokens@) + prepend_first(cur@, rest));
            }
        }
        i = i + 1;
    }
    let ghost final_cur = cur@;
    tokens.push(cur);
    proof {
        assert(s.skip(s.len() as int) =~= Seq::<char>::empty());
        assert(split_commas(Seq::<char>::empty()) =~= seq![Seq::<char>::empty()]);
        assert(prepend_first(final_cur, split_commas(Seq::<char>::empty())) =~~= seq![final_cur]);
        assert(token_views(tokens@) =~~= split_commas(s));
    }
    tokens
}

/// Joins an already-parsed prefix with what the remaining tokens mean.
spec fn opt_concat(a: Seq<EncodingChoice>, o: Option<Seq<EncodingChoice>>) -> Option<
    Seq<EncodingChoice>,
> {
    match o {
        Option::None => None,
        Option::Some(r) => Some(a + r),
    }
}

/// Parses an `Accept-Encoding` header value into the encodings it names,
/// in order; `None` if any token names no known encoding — such a request
/// is failed outright.
pub fn parse_accept_encoding(header: &str) -> (r: Option<Vec<EncodingChoice>>)
    ensures
        r matches Some(v) ==> parse_header(header@) == Some(v@),
        r is None ==> parse_header(header@) is None,
{
    let cs = chars_of(header);
    let tokens = split_header(&cs);
    let ghost tv = token_views(tokens@);
    let mut encs: Vec<EncodingChoice> = Vec::new();
    let mut j: usize = 0;
    proof {
        assert(tv.skip(0) =~= tv);
        assert(parse_header(header@) == opt_concat(encs@, parse_tokens(tv.skip(j as int))));
    }
    while j < tokens.len()
        invariant
            j <= tokens@.len(),
            tv == token_views(tokens@),
            parse_header(header@) == opt_concat(encs@, parse_tokens(tv.skip(j as int))),
        decreases tokens@.len() - j,
    {
        proof {
            assert(tv.skip(j as int).len() > 0);
            assert(tv.skip(j as int)[0] == tokens@[j as int]@);
            assert(tv.skip(j as int).skip(1) =~= tv.skip(j + 1));
        }
        let ghost old_encs = encs@;
        match classify_token(&tokens[j]) {
            Option::None => {
                return None;
            },
            Option::Some(e) => {
                encs.push(e);
                proof {
                    match parse_tokens(tv.skip(j + 1)) {
                        Option::None => {},
                        Option::Some(rest) => {
                            assert(old_encs + (seq![e] + rest) =~= encs@ + rest);
                        },
                    }
                }
            },
        }
        j = j + 1;
    }
    proof {
        assert(tv.skip(tokens@.len() as int) =~= Seq::<Seq<char>>::empty());
        assert(encs@ + Seq::<EncodingChoice>::empty() =~= encs@);
    }
    Some(encs)
}

/// The parsed `Accept-Encoding` header of a request: the encodings the
/// client accepts, or nothing when the request carried no such header.
pub struct AcceptEncodingHeader {
    pub accept_encoding: Option<Vec<EncodingChoice>>,
}

impl AcceptEncodingHeader {
    /// Builds the header value from a request: absent header means no
    /// preference; a present header must parse, else the request fails.
    pub fn from_header(header: Option<&str>) -> (r: Option<AcceptEncodingHeader>)
        ensures
            header is None ==> (r matches Some(h) && h.accept_encoding is None),
            header matches Some(s) ==> match parse_header(s@) {
                Option::None => r is None,
                Option::Some(encs) => (r matches Some(h) && h.accept_encoding matches Some(v)
                    && v@ == encs),
            },
    {
        match header {
            Option::None => Some(AcceptEncodingHeader { accept_encoding: None }),
            Option::Some(s) => match parse_accept_encoding(s) {
                Option::None => None,
                Option::Some(v) => Some(AcceptEncodingHeader { accept_encoding: Some(v) }),
            },
        }
    }
}

// ------------------------------------------------------------------
// Negotiation
// ------------------------------------------------------------------
/// The encoder chosen from a preference list: each entry the client
/// accepts overwrites the previous choice, so the last accepted entry of
/// the list wins; identity when nothing matches.
pub open spec fn spec_negotiate_list(
    accepted: Seq<EncodingChoice>,
    encoders: Seq<EncodingChoice>,
) -> EncodingChoice
    decreases encoders.len(),
{
    if encoders.len() == 0 {
        EncodingChoice::Identity
    } else if accepted.contains(encoders.last()) {
        encoders.last()
    } else {
        spec_negotiate_list(accepted, encoders.drop_last())
    }
}

/// The chosen encoding for a request: identity when the request had no
/// `Accept-Encoding` header, else the last entry of the preference list
/// the client accepts.
pub open spec fn spec_negotiate(
    accepted: Option<Seq<EncodingChoice>>,
    encoders: Seq<EncodingChoice>,
) -> EncodingChoice {
    match accepted {
        Option::None => EncodingChoice::Identity,
        Option::Some(a) => spec_negotiate_list(a, encoders),
    }
}

/// The accepted encodings a parsed header holds, if any.
pub open spec fn accepted_view(o: Option<Vec<EncodingChoice>>) -> Option<Seq<EncodingChoice>> {
    match o {
        Option::None => None,
        Option::Some(v) => Some(v@),
    }
}

/// Whether the list holds the given encoding.
fn contains_choice(list: &Vec<EncodingChoice>, e: EncodingChoice) -> (r: bool)
    ensures
        r == list@.contains(e),
{
    let mut i: usize = 0;
    while i < list.len()
        invariant
            i <= list@.len(),
            forall|j: int| 0 <= j < i ==> list@[j] != e,
        decreases list@.len() - i,
    {
        if list[i] == e {
            return true;
        }
        i = i + 1;
    }
    false
}

/// Chooses the content encoding: walks the preference list and lets every
/// match overwrite the previous choice, exactly as specified by
/// [`spec_negotiate`].
pub fn negotiate_encoding(
    accept_encoding: &Option<Vec<EncodingChoice>>,
    encoders: &Vec<EncodingChoice>,
) -> (r: EncodingChoice)
    ensures
        r == spec_negotiate(accepted_view(*accept_encoding), encoders@),
{
    let mut encoding = EncodingChoice::Identity;
    match accept_encoding {
        Option::None => {},
        Option::Some(list) => {
            let mut i: usize = 0;
            proof {
                assert(encoders@.take(0) =~= Seq::<EncodingChoice>::empty());
            }
            while i < encoders.len()
                invariant
                    i <= encoders@.len(),
                    encoding == spec_negotiate_list(list@, encoders@.take(i as int)),
                decreases encoders@.len() - i,
            {
                if contains_choice(list, encoders[i]) {
                    encoding = encoders[i];
                }
                proof {
                    assert(encoders@.take(i + 1).drop_last() =~= encoders@.take(i as int));
                    assert(encoders@.take(i + 1).last() == encoders@[i as int]);
                }
                i = i + 1;
            }
            proof {
                assert(encoders@.take(encoders@.len() as int) =~= encoders@);
            }
        },
    }
    encoding
}

/// With the server's fixed preference list — deflate, then gzip, then
/// brotli, each match overwriting the last — brotli wins over gzip, gzip
/// over deflate, and identity stands only when nothing matches.
pub proof fn lemma_negotiate_preference(accepted: Seq<EncodingChoice>)
    ensures
        spec_negotiate_list(
            accepted,
            seq![EncodingChoice::Deflate, EncodingChoice::Gzip, EncodingChoice::Brotli],
        ) == (if accepted.contains(EncodingChoice::Brotli) {
            EncodingChoice::Brotli
        } else if accepted.contains(EncodingChoice::Gzip) {
            EncodingChoice::Gzip
        } else if accepted.contains(EncodingChoice::Deflate) {
            EncodingChoice::Deflate
        } else {
            EncodingChoice::Identity
        }),
{
    let prefs = seq![EncodingChoice::Deflate, EncodingChoice::Gzip, EncodingChoice::Brotli];
    let p2 = prefs.drop_last();
    let p1 = p2.drop_last();
    let p0 = p1.drop_last();
    assert(p2 =~= seq![EncodingChoice::Deflate, EncodingChoice::Gzip]);
    assert(p1 =~= seq![EncodingChoice::Deflate]);
    assert(p0 =~= Seq::<EncodingChoice>::empty());
    assert(spec_negotiate_list(accepted, p0) == EncodingChoice::Identity);
    assert(prefs.last() == EncodingChoice::Brotli);
    assert(p2.last() == EncodingChoice::Gzip);
    assert(p1.last() == EncodingChoice::Deflate);
    assert(spec_negotiate_list(accepted, p1) == (if accepted.contains(EncodingChoice::Deflate) {
        EncodingChoice::Deflate
    } else {
        EncodingChoice::Identity
    }));
    assert(spec_negotiate_list(accepted, p2) == (if accepted.contains(EncodingChoice::Gzip) {
        EncodingChoice::Gzip
    } else {
        spec_negotiate_list(accepted, p1)
    }));
}

// ------------------------------------------------------------------
// Encoding the response body
// ------------------------------------------------------------------
/// What `libflate`'s deflate encoder produces for the given bytes; a
/// deterministic function of the input alone.
pub uninterp spec fn deflate_of(data: Seq<u8>) -> Seq<u8>;

/// What `brotli`'s compressor produces for the given bytes at this
/// server's fixed settings; a deterministic function of the input alone.
pub uninterp spec fn brotli_of(data: Seq<u8>) -> Seq<u8>;

/// What `libflate`'s gzip decoder recovers from the given bytes: the
/// decompressed payload, or nothing for a stream it rejects.
pub uninterp spec fn gunzip_of(data: Seq<u8>) -> Option<Seq<u8>>;

/// Relies on `libflate::deflate::Encoder`: writing into an in-memory
/// buffer cannot fail, and the stream produced depends on the input bytes
/// alone.
#[verifier::external_body]
fn deflate_compress(data: &Vec<u8>) -> (r: Vec<u8>)
    ensures
        r@ == deflate_of(data@),
{
    let mut encoder = libflate::deflate::Encoder::new(Vec::new());
    std::io::Write::write_all(&mut encoder, data).unwrap();
    encoder.finish().into_result().unwrap()
}

/// Relies on `brotli::CompressorReader` over an in-memory slice: reading
/// to the end cannot fail, and the stream produced depends on the input
/// bytes alone, at fixed buffer size, quality and window settings.
#[verifier::external_body]
fn brotli_compress(data: &Vec<u8>) -> (r: Vec<u8>)
    ensures
        r@ == brotli_of(data@),
{
    let mut reader = brotli::CompressorReader::new(data.as_slice(), 4096, 9, 16);
    let mut encoded: Vec<u8> = Vec::new();
    std::io::Read::read_to_end(&mut reader, &mut encoded).unwrap();
    encoded
}

/// Relies on `libflate::gzip::Encoder` and `Decoder`: the encoder stamps
/// the current time into the stream's header, so the bytes produced are
/// not a function of the input alone; but whatever stream comes out, the
/// gzip decoder recovers exactly the input payload from it.
#[verifier::external_body]
fn gzip_compress(data: &Vec<u8>) -> (r: Vec<u8>)
    ensures
        gunzip_of(r@) == Some(data@),
{
    let mut encoder = libflate::gzip::Encoder::new(Vec::new()).unwrap();
    std::io::Write::write_all(&mut encoder, data).unwrap();
    encoder.finish().into_result().unwrap()
}

/// What holds of an encoded response body for the given input and chosen
/// encoding: identity passes the bytes through; deflate and brotli
/// produce their encoders' streams; a gzip stream is pinned down by what
/// it decodes back to.
pub open spec fn encode_ok(input: Seq<u8>, encoding: EncodingChoice, out: Seq<u8>) -> bool {
    match encoding {
        EncodingChoice::Identity => out == input,
        EncodingChoice::Deflate => out == deflate_of(input),
        EncodingChoice::Brotli => out == brotli_of(input),
        EncodingChoice::Gzip => gunzip_of(out) == Some(input),
    }
}

/// Applies the chosen encoder to the whole body in memory; identity
/// applies no transform.
pub fn encode(content: &Vec<u8>, encoding: EncodingChoice) -> (r: Vec<u8>)
    ensures
        encode_ok(content@, encoding, r@),
{
    match encoding {
        EncodingChoice::Identity => {
            let r = content.clone();
            proof {
                assert(r@ =~= content@);
            }
            r
        },
        EncodingChoice::Gzip => gzip_compress(content),
        EncodingChoice::Deflate => deflate_compress(content),
        EncodingChoice::Brotli => brotli_compress(content),
    }
}

/// A response body together with the content encoding applied to it.
pub struct EncodedContent {
    pub inner: Vec<u8>,
    pub encoding: EncodingChoice,
}

impl EncodedContent {
    /// Encodes a file's bytes for a request: negotiates against the fixed
    /// preference list — deflate, gzip, brotli, each match overwriting
    /// the previous — and applies the chosen encoder.
    pub fn new(content: &Vec<u8>, accept_encoding: &AcceptEncodingHeader) -> (r: EncodedContent)
        ensures
            r.encoding == spec_negotiate(
                accepted_view(accept_encoding.accept_encoding),
                seq![EncodingChoice::Deflate, EncodingChoice::Gzip, EncodingChoice::Brotli],
            ),
            encode_ok(content@, r.encoding, r.inner@),
    {
        let mut encoders: Vec<EncodingChoice> = Vec::new();
        encoders.push(EncodingChoice::Deflate);
        encoders.push(EncodingChoice::Gzip);
        encoders.push(EncodingChoice::Brotli);
        proof {
            assert(encoders@ =~= seq![
                EncodingChoice::Deflate,
                EncodingChoice::Gzip,
                EncodingChoice::Brotli,
            ]);
        }
        let encoding = negotiate_encoding(&accept_encoding.accept_encoding, &encoders);
        let inner = encode(content, encoding);
        EncodedContent { inner, encoding }
    }
}

} // verus!
