//! Tokenizer for LLaMA models
//!
//! The vocabulary comes from GGUF metadata. Text is split greedily into the
//! longest vocabulary entries, byte by byte where nothing matches; token
//! strings are compared by their UTF-8 bytes.

use vstd::prelude::*;
use vstd::utf8::encode_utf8;
use crate::gguf::metadata::{MetaView, MetadataValue};
use crate::gguf::reader::{GGUFReader, lookup};

verus! {

/// Errors of loading a tokenizer
#[derive(Debug, Clone, Copy, PartialEq, Eq, Structural)]
pub enum TokenizerError {
    /// No "tokenizer.ggml.tokens" entry
    MissingTokens,
    /// An entry of the token array is not a string
    ExpectedStringToken,
    /// "tokenizer.ggml.tokens" is not an array
    TokensNotArray,
}

pub open spec fn error_text(e: TokenizerError) -> Seq<char> {
    match e {
        TokenizerError::MissingTokens => "Missing tokenizer.ggml.tokens"@,
        TokenizerError::ExpectedStringToken => "Expected string token"@,
        TokenizerError::TokensNotArray => "tokens must be an array"@,
    }
}

impl TokenizerError {
    /// The error message
    pub fn message(&self) -> (r: String)
        ensures
            r@ == error_text(*self),
    {
        match self {
            TokenizerError::MissingTokens => String::from_str("Missing tokenizer.ggml.tokens"),
            TokenizerError::ExpectedStringToken => String::from_str("Expected string token"),
            TokenizerError::TokensNotArray => String::from_str("tokens must be an array"),
        }
    }
}

/// The UTF-8 bytes of each token.
pub open spec fn token_bytes(tokens: Seq<Seq<char>>) -> Seq<Seq<u8>> {
    tokens.map_values(|t: Seq<char>| encode_utf8(t))
}

/// The last position below `k` holding `s`, or -1.
pub open spec fn last_index(tb: Seq<Seq<u8>>, s: Seq<u8>, k: int) -> int
    decreases k,
{
    if k <= 0 {
        -1
    } else if tb[k - 1] == s {
        k - 1
    } else {
        last_index(tb, s, k - 1)
    }
}

/// The id of the token whose bytes are `s`; of repeated tokens the last counts.
pub open spec fn vocab_id(tb: Seq<Seq<u8>>, s: Seq<u8>) -> Option<u32> {
    let i = last_index(tb, s, tb.len() as int);
    if i >= 0 {
        Some(i as u32)
    } else {
        None
    }
}

/// Position `i` of `b` starts a character (or is its end), as `str` decides it.
pub open spec fn at_boundary(b: Seq<u8>, i: int) -> bool {
    i == 0 || i == b.len() || (0 < i < b.len() && !(0x80 <= b[i] <= 0xbf))
}

/// How the search for the longest token at the start of some bytes ends.
pub enum Match {
    Found(int, u32),
    NotFound,
    /// A length that would cut a character is tried
    Cuts,
}

/// Trying the lengths `len`, `len - 1`, .., 1 in turn.
pub open spec fn longest_match(tb: Seq<Seq<u8>>, b: Seq<u8>, len: int) -> Match
    decreases len,
{
    if len <= 0 {
        Match::NotFound
    } else if !at_boundary(b, len) {
        Match::Cuts
    } else {
        match vocab_id(tb, b.take(len)) {
            Some(id) => Match::Found(len, id),
            None => longest_match(tb, b, len - 1),
        }
    }
}

pub proof fn lemma_longest_match(tb: Seq<Seq<u8>>, b: Seq<u8>, len: int)
    ensures
        longest_match(tb, b, len) matches Match::Found(l, _) ==> 1 <= l <= len,
    decreases len,
{
    if len > 0 {
        lemma_longest_match(tb, b, len - 1);
    }
}

/// An upper-case hexadecimal digit.
pub open spec fn hex_upper(d: u8) -> u8 {
    if d < 10 {
        (0x30 + d) as u8
    } else {
        (0x41 + d - 10) as u8
    }
}

/// The bytes of the token standing for a raw byte: "<0xHH>".
pub open spec fn fallback_token(byte: u8) -> Seq<u8> {
    seq![0x3Cu8, 0x30u8, 0x78u8, hex_upper(byte / 16), hex_upper(byte % 16), 0x3Eu8]
}

/// Greedy tokenization of `b`; `None` where a slice would cut a character.
pub open spec fn greedy(tb: Seq<Seq<u8>>, b: Seq<u8>) -> Option<Seq<u32>>
    decreases b.len(),
{
    if b.len() == 0 {
        Some(Seq::empty())
    } else {
        proof {
            lemma_longest_match(tb, b, b.len() as int);
        }
        match longest_match(tb, b, b.len() as int) {
            Match::Cuts => None,
            Match::Found(len, id) => match greedy(tb, b.skip(len)) {
                Some(rest) => Some(seq![id] + rest),
                None => None,
            },
            Match::NotFound => if !at_boundary(b, 1) {
                None
            } else {
                let id = match vocab_id(tb, fallback_token(b[0])) {
                    Some(id) => id,
                    None => 0,
                };
                match greedy(tb, b.skip(1)) {
                    Some(rest) => Some(seq![id] + rest),
                    None => None,
                }
            },
        }
    }
}

/// A hexadecimal digit's value.
pub open spec fn hex_digit(c: u8) -> Option<u8> {
    if 0x30 <= c <= 0x39 {
        Some((c - 0x30) as u8)
    } else if 0x41 <= c <= 0x46 {
        Some((c - 0x41 + 10) as u8)
    } else if 0x61 <= c <= 0x66 {
        Some((c - 0x61 + 10) as u8)
    } else {
        None
    }
}

/// The two-character text `c0 c1` read as a hexadecimal `u8`, an optional
/// leading '+' included.
pub open spec fn hex_pair(c0: u8, c1: u8) -> Option<u8> {
    if c0 == 0x2B {
        hex_digit(c1)
    } else {
        match (hex_digit(c0), hex_digit(c1)) {
            (Some(a), Some(b)) => Some((a * 16 + b) as u8),
            _ => None,
        }
    }
}

/// A token of the form "<0x..>".
pub open spec fn is_byte_token(t: Seq<u8>) -> bool {
    &&& t.len() >= 3
    &&& t[0] == 0x3C && t[1] == 0x30 && t[2] == 0x78
    &&& t.last() == 0x3E
}

/// The text one token id decodes to.
pub open spec fn piece(tokens: Seq<Seq<char>>, bos: u32, eos: u32, id: u32) -> Seq<char> {
    if id == bos || id == eos || id >= tokens.len() {
        Seq::empty()
    } else {
        let t = encode_utf8(tokens[id as int]);
        if is_byte_token(t) {
            match hex_pair(t[3], t[4]) {
                Some(v) => seq![v as char],
                None => Seq::empty(),
            }
        } else {
            tokens[id as int]
        }
    }
}

/// Decoding token `id` slices a byte token at bytes 3 to 5 without cutting a character.
pub open spec fn piece_ok(tokens: Seq<Seq<char>>, bos: u32, eos: u32, id: u32) -> bool {
    let t = encode_utf8(tokens[id as int]);
    (id != bos && id != eos && id < tokens.len() && is_byte_token(t)) ==> t.len() >= 5
        && at_boundary(t, 5)
}

/// The text of the first `k` ids.
pub open spec fn decoded(tokens: Seq<Seq<char>>, bos: u32, eos: u32, ids: Seq<u32>, k: int) -> Seq<char>
    decreases k,
{
    if k <= 0 {
        Seq::empty()
    } else {
        decoded(tokens, bos, eos, ids, k - 1) + piece(tokens, bos, eos, ids[k - 1])
    }
}

#[derive(Debug)]
pub struct Tokenizer {
    /// ID to token string mapping
    id_to_token: Vec<String>,
    /// Special tokens
    pub bos_token: u32,
    pub eos_token: u32,
    pub nl_token: Option<u32>,
}

/// std's `String::push`: appends one character.
#[verifier::external_body]
fn push_char(s: &mut String, c: char)
    ensures
        final(s)@ == old(s)@.push(c),
{
    s.push(c);
}

/// Two byte slices are equal.
fn bytes_equal(a: &[u8], b: &[u8]) -> (r: bool)
    ensures
        r == (a@ == b@),
{
    if a.len() != b.len() {
        return false;
    }
    let mut i: usize = 0;
    while i < a.len()
        invariant
            a@.len() == b@.len(),
            i <= a@.len(),
            forall|j: int| 0 <= j < i ==> a@[j] == b@[j],
        decreases a@.len() - i,
    {
        if a[i] != b[i] {
            return false;
        }
        i = i + 1;
    }
    assert(a@ =~= b@);
    true
}

fn hex_upper_exec(d: u8) -> (r: u8)
    requires
        d < 16,
    ensures
        r == hex_upper(d),
{
    if d < 10 {
        0x30 + d
    } else {
        0x41 + d - 10
    }
}

fn hex_digit_exec(c: u8) -> (r: Option<u8>)
    ensures
        r == hex_digit(c),
{
    if 0x30 <= c && c <= 0x39 {
        Some(c - 0x30)
    } else if 0x41 <= c && c <= 0x46 {
        Some(c - 0x41 + 10)
    } else if 0x61 <= c && c <= 0x66 {
        Some(c - 0x61 + 10)
    } else {
        None
    }
}

/// Reads the two characters as a hexadecimal `u8` (an optional '+' first),
/// as `u8::from_str_radix(_, 16)` does.
fn hex_pair_exec(c0: u8, c1: u8) -> (r: Option<u8>)
    ensures
        r == hex_pair(c0, c1),
{
    if c0 == 0x2B {
        return hex_digit_exec(c1);
    }
    match (hex_digit_exec(c0), hex_digit_exec(c1)) {
        (Some(a), Some(b)) => Some(a * 16 + b),
        _ => None,
    }
}

impl Tokenizer {
    pub closed spec fn tokens(&self) -> Seq<Seq<char>> {
        self.id_to_token@.map_values(|s: String| s@)
    }

    pub closed spec fn bos(&self) -> u32 {
        self.bos_token
    }

    pub closed spec fn eos(&self) -> u32 {
        self.eos_token
    }

    pub closed spec fn nl(&self) -> Option<u32> {
        self.nl_token
    }

    /// Load tokenizer from GGUF metadata
    pub fn from_gguf(reader: &GGUFReader) -> (r: Result<Self, TokenizerError>)
        ensures
            match lookup(reader@.metadata, "tokenizer.ggml.tokens"@) {
                None => r == Err::<Self, TokenizerError>(TokenizerError::MissingTokens),
                Some(MetaView::Array(_, vals)) => if forall|i: int|
                    0 <= i < vals.len() ==> (#[trigger] vals[i]) is String {
                    r matches Ok(t) && t.tokens() == vals.map_values(|v: MetaView| v->String_0)
                        && t.bos() == (match lookup(
                        reader@.metadata,
                        "tokenizer.ggml.bos_token_id"@,
                    ) {
                        Some(MetaView::UInt32(x)) => x,
                        _ => 1u32,
                    }) && t.eos() == (match lookup(
                        reader@.metadata,
                        "tokenizer.ggml.eos_token_id"@,
                    ) {
                        Some(MetaView::UInt32(x)) => x,
                        _ => 2u32,
                    }) && t.nl() == (match vocab_id(token_bytes(t.tokens()), seq![0x0Au8]) {
                        Some(id) => Some(id),
                        None => vocab_id(token_bytes(t.tokens()), seq![0x5Cu8, 0x6Eu8]),
                    })
                } else {
                    r == Err::<Self, TokenizerError>(TokenizerError::ExpectedStringToken)
                },
                Some(_) => r == Err::<Self, TokenizerError>(TokenizerError::TokensNotArray),
            },
    {
        // Load tokens array
        let tokens = match reader.get_metadata("tokenizer.ggml.tokens") {
            Some(v) => v,
            None => {
                return Err(TokenizerError::MissingTokens);
            },
        };
        let arr = match tokens {
            MetadataValue::Array(arr) => arr,
            _ => {
                return Err(TokenizerError::TokensNotArray);
            },
        };
        let ghost vals = tokens@->Array_1;
        assert(tokens@ == MetaView::Array(arr.value_type, vals));
        let mut token_strings: Vec<String> = Vec::new();
        let mut i: usize = 0;
        while i < arr.values.len()
            invariant
                i <= arr.values@.len(),
                vals == arr.values@.map_values(
                    |e: MetadataValue| crate::gguf::metadata::shallow_view(e),
                ),
                token_strings@.len() == i,
                lookup(reader@.metadata, "tokenizer.ggml.tokens"@) == Some(
                    MetaView::Array(arr.value_type, vals),
                ),
                forall|j: int| 0 <= j < i ==> (#[trigger] vals[j]) is String,
                forall|j: int|
                    0 <= j < i ==> (#[trigger] token_strings@[j])@ == vals[j]->String_0,
            decreases arr.values@.len() - i,
        {
            match &arr.values[i] {
                MetadataValue::String(s) => {
                    token_strings.push(s.clone());
                },
                _ => {
                    assert(!(vals[i as int] is String));
                    return Err(TokenizerError::ExpectedStringToken);
                },
            }
            i = i + 1;
        }
        // Load special tokens
        let bos_token = match reader.get_metadata("tokenizer.ggml.bos_token_id") {
            Some(v) => match v.as_u32() {
                Ok(x) => x,
                Err(_) => 1,
            },
            None => 1,
        };
        let eos_token = match reader.get_metadata("tokenizer.ggml.eos_token_id") {
            Some(v) => match v.as_u32() {
                Ok(x) => x,
                Err(_) => 2,
            },
            None => 2,
        };
        let mut t = Self { id_to_token: token_strings, bos_token, eos_token, nl_token: None };
        assert(t.tokens() =~= vals.map_values(|v: MetaView| v->String_0));
        // Try to find newline token
        let nl = [0x0Au8];
        let escaped = [0x5Cu8, 0x6Eu8];
        assert(nl@ =~= seq![0x0Au8]);
        assert(escaped@ =~= seq![0x5Cu8, 0x6Eu8]);
        t.nl_token = match t.lookup_bytes(&nl) {
            Some(id) => Some(id),
            None => t.lookup_bytes(&escaped),
        };
        Ok(t)
    }

    /// The id of the token whose UTF-8 bytes are `s`.
    fn lookup_bytes(&self, s: &[u8]) -> (r: Option<u32>)
        ensures
            r == vocab_id(token_bytes(self.tokens()), s@),
    {
        let ghost tb = token_bytes(self.tokens());
        let mut i: usize = self.id_to_token.len();
        while i > 0
            invariant
                i <= self.id_to_token@.len(),
                tb == token_bytes(self.tokens()),
                tb.len() == self.id_to_token@.len(),
                last_index(tb, s@, tb.len() as int) == last_index(tb, s@, i as int),
            decreases i,
        {
            let t = self.id_to_token[i - 1].as_str().as_bytes();
            assert(t@ == tb[i - 1]);
            if bytes_equal(t, s) {
                return Some((i - 1) as u32);
            }
            i = i - 1;
        }
        None
    }

    /// Text that can be encoded without slicing inside a character.
    pub open spec fn encodable(&self, text: &str) -> bool {
        greedy(token_bytes(self.tokens()), encode_utf8(text@)) is Some
    }

    /// Whether `encode` takes `text` without slicing inside a character
    pub fn can_encode(&self, text: &str) -> (r: bool)
        ensures
            r == self.encodable(text),
    {
        let bytes = text.as_bytes();
        let ghost tb = token_bytes(self.tokens());
        let ghost b = bytes@;
        assert(b.skip(0) =~= b);
        let mut pos: usize = 0;
        while pos < bytes.len()
            invariant
                b == bytes@,
                b == encode_utf8(text@),
                tb == token_bytes(self.tokens()),
                pos <= b.len(),
                greedy(tb, b) is Some <==> greedy(tb, b.skip(pos as int)) is Some,
            decreases b.len() - pos,
        {
            let ghost rem = b.skip(pos as int);
            let (found, len, _id) = self.match_at(bytes, pos);
            proof {
                lemma_longest_match(tb, rem, rem.len() as int);
            }
            if found {
                assert(rem.skip(len as int) =~= b.skip(pos + len));
                pos = pos + len;
            } else if len == 0 {
                return false;
            } else {
                if pos + 1 < bytes.len() && 0x80 <= bytes[pos + 1] && bytes[pos + 1] <= 0xbf {
                    assert(rem[1] == bytes@[pos + 1]);
                    return false;
                }
                assert(pos + 1 < bytes@.len() ==> rem[1] == bytes@[pos + 1]);
                assert(rem.skip(1) =~= b.skip(pos + 1));
                pos = pos + 1;
            }
        }
        assert(b.skip(pos as int) =~= Seq::<u8>::empty());
        true
    }

    /// The longest token at `pos`: `(true, len, id)` when found,
    /// `(false, 1, _)` when none matches and `(false, 0, _)` when a length
    /// that would cut a character is reached first.
    fn match_at(&self, bytes: &[u8], pos: usize) -> (r: (bool, usize, u32))
        requires
            pos < bytes@.len(),
        ensures
            match longest_match(token_bytes(self.tokens()), bytes@.skip(pos as int), bytes@.len() - pos) {
                Match::Found(len, id) => r.0 && r.1 == len && r.2 == id,
                Match::NotFound => !r.0 && r.1 == 1,
                Match::Cuts => !r.0 && r.1 == 0,
            },
    {
        let ghost tb = token_bytes(self.tokens());
        let ghost rem = bytes@.skip(pos as int);
        let mut len: usize = bytes.len() - pos;
        assert(rem.len() == bytes@.len() - pos);
        while len > 0
            invariant
                pos < bytes@.len(),
                rem == bytes@.skip(pos as int),
                tb == token_bytes(self.tokens()),
                len <= rem.len(),
                rem.len() == bytes@.len() - pos,
                pos + len <= bytes.len(),
                longest_match(tb, rem, rem.len() as int) == longest_match(tb, rem, len as int),
            decreases len,
        {
            let end = pos + len;
            if end < bytes.len() && 0x80 <= bytes[end] && bytes[end] <= 0xbf {
                assert(rem[len as int] == bytes@[end as int]);
                return (false, 0, 0);
            }
            assert(end < bytes@.len() ==> rem[len as int] == bytes@[end as int]);
            let candidate = vstd::slice::slice_subrange(bytes, pos, end);
            assert(candidate@ =~= rem.take(len as int));
            match self.lookup_bytes(candidate) {
                Some(id) => {
                    return (true, len, id);
                },
                None => {},
            }
            len = len - 1;
        }
        (false, 1, 0)
    }

    /// The id of the "<0xHH>" token for `byte`, or 0 (unknown) without one.
    fn fallback_id(&self, byte: u8) -> (r: u32)
        ensures
            r == match vocab_id(token_bytes(self.tokens()), fallback_token(byte)) {
                Some(id) => id,
                None => 0,
            },
    {
        let t = [0x3Cu8, 0x30u8, 0x78u8, hex_upper_exec(byte / 16), hex_upper_exec(byte % 16), 0x3Eu8];
        assert(t@ =~= fallback_token(byte));
        match self.lookup_bytes(&t) {
            Some(id) => id,
            None => 0,
        }
    }

    /// Encode text to token IDs
    ///
    /// Greedy: at each position the longest vocabulary entry is taken; where
    /// none matches, the "<0xHH>" token of the byte, or 0 without one.
    pub fn encode(&self, text: &str, add_bos: bool) -> (r: Vec<u32>)
        requires
            self.encodable(text),
        ensures
            r@ == (if add_bos {
                seq![self.bos()]
            } else {
                Seq::empty()
            }) + greedy(token_bytes(self.tokens()), encode_utf8(text@))->Some_0,
    {
        let bytes = text.as_bytes();
        let ghost tb = token_bytes(self.tokens());
        let ghost b = bytes@;
        let mut tokens: Vec<u32> = Vec::new();
        if add_bos {
            tokens.push(self.bos_token);
        }
        let ghost head = tokens@;
        assert(b.skip(0) =~= b);
        let mut pos: usize = 0;
        while pos < bytes.len()
            invariant
                b == bytes@,
                b == encode_utf8(text@),
                tb == token_bytes(self.tokens()),
                pos <= b.len(),
                greedy(tb, b.skip(pos as int)) is Some,
                head + greedy(tb, b)->Some_0 == tokens@ + greedy(tb, b.skip(pos as int))->Some_0,
            decreases b.len() - pos,
        {
            let ghost rem = b.skip(pos as int);
            proof {
                lemma_longest_match(tb, rem, rem.len() as int);
            }
            let (found, len, id) = self.match_at(bytes, pos);
            if found {
                tokens.push(id);
                assert(rem.skip(len as int) =~= b.skip(pos + len));
                pos = pos + len;
            } else {
                let id = self.fallback_id(bytes[pos]);
                tokens.push(id);
                assert(rem.skip(1) =~= b.skip(pos + 1));
                pos = pos + 1;
            }
        }
        assert(b.skip(pos as int) =~= Seq::<u8>::empty());
        assert(tokens@ + Seq::<u32>::empty() =~= tokens@);
        tokens
    }

    /// Ids that can be decoded without slicing inside a character.
    pub open spec fn decodable(&self, ids: Seq<u32>) -> bool {
        forall|i: int|
            0 <= i < ids.len() ==> piece_ok(self.tokens(), self.bos(), self.eos(), #[trigger] ids[i])
    }

    /// Decode token IDs to text
    ///
    /// The begin and end tokens are skipped, unknown ids give nothing, and
    /// a "<0xHH>" token gives the character with code HH.
    pub fn decode(&self, tokens: &[u32]) -> (r: String)
        requires
            self.decodable(tokens@),
        ensures
            r@ == decoded(self.tokens(), self.bos(), self.eos(), tokens@, tokens@.len() as int),
    {
        let mut result = String::new();
        let mut k: usize = 0;
        while k < tokens.len()
            invariant
                k <= tokens@.len(),
                self.decodable(tokens@),
                result@ == decoded(self.tokens(), self.bos_token, self.eos_token, tokens@, k as int),
            decreases tokens@.len() - k,
        {
            let token_id = tokens[k];
            assert(piece_ok(self.tokens(), self.bos_token, self.eos_token, tokens@[k as int]));
            if token_id == self.bos_token || token_id == self.eos_token {
                // Skip special tokens
                k = k + 1;
                continue;
            }
            if (token_id as usize) < self.id_to_token.len() {
                let token_str = &self.id_to_token[token_id as usize];
                let t = token_str.as_str().as_bytes();
                // Handle byte tokens
                if t.len() >= 3 && t[0] == 0x3C && t[1] == 0x30 && t[2] == 0x78 && t[t.len() - 1]
                    == 0x3E {
                    match hex_pair_exec(t[3], t[4]) {
                        Some(byte) => push_char(&mut result, byte as char),
                        None => {},
                    }
                } else {
                    result.append(token_str.as_str());
                }
            }
            k = k + 1;
        }
        result
    }

    /// Whether `decode` takes `tokens` without slicing inside a character
    pub fn can_decode(&self, tokens: &[u32]) -> (r: bool)
        ensures
            r == self.decodable(tokens@),
    {
        let mut k: usize = 0;
        while k < tokens.len()
            invariant
                k <= tokens@.len(),
                forall|i: int|
                    0 <= i < k ==> piece_ok(self.tokens(), self.bos(), self.eos(), #[trigger] tokens@[i]),
            decreases tokens@.len() - k,
        {
            let id = tokens[k];
            if id != self.bos_token && id != self.eos_token && (id as usize) < self.id_to_token.len() {
                let t = self.id_to_token[id as usize].as_str().as_bytes();
                if t.len() >= 3 && t[0] == 0x3C && t[1] == 0x30 && t[2] == 0x78 && t[t.len() - 1]
                    == 0x3E {
                    if t.len() < 5 || (t.len() > 5 && 0x80 <= t[5] && t[5] <= 0xbf) {
                        assert(!piece_ok(self.tokens(), self.bos(), self.eos(), tokens@[k as int]));
                        return false;
                    }
                }
            }
            k = k + 1;
        }
        true
    }

    /// Get vocabulary size
    pub fn vocab_size(&self) -> (r: usize)
        ensures
            r == self.tokens().len(),
    {
        self.id_to_token.len()
    }
}

/// The text of the first `k` ids depends on those ids alone.
proof fn lemma_decoded_prefix(
    tokens: Seq<Seq<char>>,
    bos: u32,
    eos: u32,
    x: Seq<u32>,
    y: Seq<u32>,
    k: int,
)
    requires
        0 <= k <= x.len(),
        k <= y.len(),
        forall|i: int| 0 <= i < k ==> x[i] == y[i],
    ensures
        decoded(tokens, bos, eos, x, k) == decoded(tokens, bos, eos, y, k),
    decreases k,
{
    if k > 0 {
        lemma_decoded_prefix(tokens, bos, eos, x, y, k - 1);
    }
}

/// Decoding is piecewise: the text of two id lists one after the other is
/// the text of the first followed by the text of the second, and the two
/// together decode without cutting a character exactly when each does.
pub proof fn lemma_decode_concat(tok: Tokenizer, a: Seq<u32>, b: Seq<u32>)
    ensures
        decoded(tok.tokens(), tok.bos(), tok.eos(), a + b, (a + b).len() as int)
            == decoded(tok.tokens(), tok.bos(), tok.eos(), a, a.len() as int)
            + decoded(tok.tokens(), tok.bos(), tok.eos(), b, b.len() as int),
        tok.decodable(a + b) <==> (tok.decodable(a) && tok.decodable(b)),
    decreases b.len(),
{
    let (t, bo, eo) = (tok.tokens(), tok.bos(), tok.eos());
    if b.len() == 0 {
        assert(a + b =~= a);
    } else {
        let p = b.drop_last();
        lemma_decode_concat(tok, a, p);
        let ab = a + b;
        let n = ab.len() as int;
        lemma_decoded_prefix(t, bo, eo, ab, a + p, n - 1);
        lemma_decoded_prefix(t, bo, eo, b, p, b.len() - 1);
        assert(ab[n - 1] == b[b.len() - 1]);
        assert(decoded(t, bo, eo, ab, n) =~= decoded(t, bo, eo, a, a.len() as int) + decoded(
            t,
            bo,
            eo,
            b,
            b.len() as int,
        ));
    }
    if tok.decodable(a) && tok.decodable(b) {
        assert forall|i: int| 0 <= i < (a + b).len() implies piece_ok(
            tok.tokens(),
            tok.bos(),
            tok.eos(),
            #[trigger] (a + b)[i],
        ) by {
            if i < a.len() {
                assert((a + b)[i] == a[i]);
            } else {
                assert((a + b)[i] == b[i - a.len()]);
            }
        }
    }
    if tok.decodable(a + b) {
        assert forall|i: int| 0 <= i < a.len() implies piece_ok(
            tok.tokens(),
            tok.bos(),
            tok.eos(),
            #[trigger] a[i],
        ) by {
            assert((a + b)[i] == a[i]);
        }
        assert forall|i: int| 0 <= i < b.len() implies piece_ok(
            tok.tokens(),
            tok.bos(),
            tok.eos(),
            #[trigger] b[i],
        ) by {
            assert((a + b)[i + a.len()] == b[i]);
        }
    }
}

/// The begin and end ids, and ids outside the vocabulary, decode to nothing.
pub proof fn lemma_special_ids_decode_to_nothing(tok: Tokenizer, id: u32)
    ensures
        decoded(tok.tokens(), tok.bos(), tok.eos(), seq![tok.bos(), tok.eos()], 2).len() == 0,
        decoded(tok.tokens(), tok.bos(), tok.eos(), Seq::empty(), 0).len() == 0,
        id >= tok.tokens().len() ==> decoded(tok.tokens(), tok.bos(), tok.eos(), seq![id], 1).len()
            == 0,
{
    let (t, bo, eo) = (tok.tokens(), tok.bos(), tok.eos());
    let s = seq![bo, eo];
    assert(s[0] == bo && s[1] == eo);
    assert(piece(t, bo, eo, bo).len() == 0);
    assert(piece(t, bo, eo, eo).len() == 0);
    assert(decoded(t, bo, eo, s, 0).len() == 0);
    assert(decoded(t, bo, eo, s, 1).len() == 0);
    assert(decoded(t, bo, eo, s, 2).len() == 0);
    let u = seq![id];
    assert(u[0] == id);
    assert(decoded(t, bo, eo, u, 0).len() == 0);
    if id >= t.len() {
        assert(piece(t, bo, eo, id).len() == 0);
        assert(decoded(t, bo, eo, u, 1).len() == 0);
    }
}

/// The ASCII codes of the hexadecimal digits 0-9 and A-F, in order.
pub open spec fn upper_hex_codes() -> Seq<u8> {
    seq![
        0x30u8, 0x31u8, 0x32u8, 0x33u8, 0x34u8, 0x35u8, 0x36u8, 0x37u8,
        0x38u8, 0x39u8, 0x41u8, 0x42u8, 0x43u8, 0x44u8, 0x45u8, 0x46u8,
    ]
}

/// The ASCII codes of the hexadecimal digits 0-9 and a-f, in order.
pub open spec fn lower_hex_codes() -> Seq<u8> {
    seq![
        0x30u8, 0x31u8, 0x32u8, 0x33u8, 0x34u8, 0x35u8, 0x36u8, 0x37u8,
        0x38u8, 0x39u8, 0x61u8, 0x62u8, 0x63u8, 0x64u8, 0x65u8, 0x66u8,
    ]
}

proof fn lemma_hex_codes(d: u8)
    requires
        d < 16,
    ensures
        hex_upper(d) == upper_hex_codes()[d as int],
        hex_digit(upper_hex_codes()[d as int]) == Some(d),
        hex_digit(lower_hex_codes()[d as int]) == Some(d),
{
    assert(d == 0 || d == 1 || d == 2 || d == 3 || d == 4 || d == 5 || d == 6 || d == 7 || d == 8
        || d == 9 || d == 10 || d == 11 || d == 12 || d == 13 || d == 14 || d == 15);
}

/// The fallback token of a byte is its text "<0xHH>" with the two hex digits
/// of the byte, high digit first, written in upper case; read back as a
/// hexadecimal number it gives the byte.
pub proof fn lemma_fallback_token_text(b: u8)
    ensures
        fallback_token(b) == seq![
            0x3Cu8, 0x30u8, 0x78u8,
            upper_hex_codes()[b as int / 16], upper_hex_codes()[b as int % 16],
            0x3Eu8,
        ],
        hex_pair(fallback_token(b)[3], fallback_token(b)[4]) == Some(b),
{
    lemma_hex_codes(b / 16);
    lemma_hex_codes(b % 16);
    assert(fallback_token(b) =~= seq![
        0x3Cu8, 0x30u8, 0x78u8,
        upper_hex_codes()[b as int / 16], upper_hex_codes()[b as int % 16],
        0x3Eu8,
    ]);
    assert(((b / 16) * 16 + b % 16) as u8 == b) by (nonlinear_arith);
}

/// Two hexadecimal digits, in upper or in lower case, read as the byte
/// they write, as `u8::from_str_radix(_, 16)` reads them.
pub proof fn lemma_hex_pair_reads_byte(b: u8)
    ensures
        hex_pair(upper_hex_codes()[b as int / 16], upper_hex_codes()[b as int % 16]) == Some(b),
        hex_pair(lower_hex_codes()[b as int / 16], lower_hex_codes()[b as int % 16]) == Some(b),
{
    lemma_hex_codes(b / 16);
    lemma_hex_codes(b % 16);
    assert(((b / 16) * 16 + b % 16) as u8 == b) by (nonlinear_arith);
}

/// A vocabulary entry whose text is the fallback token of byte `b` decodes
/// to the character with code `b`: byte fallback in encoding and byte
/// tokens in decoding are inverse.
pub proof fn lemma_fallback_token_decodes(tokens: Seq<Seq<char>>, bos: u32, eos: u32, id: u32, b: u8)
    requires
        id < tokens.len(),
        id != bos,
        id != eos,
        encode_utf8(tokens[id as int]) == fallback_token(b),
    ensures
        piece(tokens, bos, eos, id) == seq![b as char],
{
    lemma_fallback_token_text(b);
    let t = encode_utf8(tokens[id as int]);
    assert(is_byte_token(t));
}

proof fn lemma_last_index(tb: Seq<Seq<u8>>, s: Seq<u8>, k: int)
    requires
        k <= tb.len(),
    ensures
        last_index(tb, s, k) >= 0 ==> last_index(tb, s, k) < k && tb[last_index(tb, s, k)] == s
            && forall|j: int| last_index(tb, s, k) < j < k ==> tb[j] != s,
        last_index(tb, s, k) < 0 ==> last_index(tb, s, k) == -1 && forall|j: int| 0 <= j < k ==> tb[j] != s,
    decreases k,
{
    if k > 0 {
        lemma_last_index(tb, s, k - 1);
    }
}

/// Looking a token up by its bytes finds an entry with exactly those bytes,
/// the last one where the vocabulary repeats it, and finds nothing only when
/// no entry has them.
pub proof fn lemma_vocab_id(tb: Seq<Seq<u8>>, s: Seq<u8>)
    requires
        tb.len() <= u32::MAX + 1,
    ensures
        vocab_id(tb, s) matches Some(i) ==> i < tb.len() && tb[i as int] == s && forall|j: int|
            i < j < tb.len() ==> tb[j] != s,
        vocab_id(tb, s) is None ==> forall|j: int| 0 <= j < tb.len() ==> tb[j] != s,
{
    lemma_last_index(tb, s, tb.len() as int);
}

/// The search for the longest token at the start of `b` (trying lengths up
/// to `len`): a token found covers exactly the first `l` bytes, and no
/// longer prefix up to `len` ending on a character boundary is a token;
/// when none is found, no prefix of length 1 to `len` is a token.
pub proof fn lemma_longest_match_is_longest(tb: Seq<Seq<u8>>, b: Seq<u8>, len: int)
    requires
        tb.len() <= u32::MAX + 1,
    ensures
        longest_match(tb, b, len) matches Match::Found(l, id) ==> {
            &&& 1 <= l <= len
            &&& id < tb.len()
            &&& tb[id as int] == b.take(l)
            &&& forall|m: int| l < m <= len ==> #[trigger] vocab_id(tb, b.take(m)) is None
        },
        longest_match(tb, b, len) is NotFound ==> forall|m: int|
            1 <= m <= len ==> #[trigger] vocab_id(tb, b.take(m)) is None,
    decreases len,
{
    if len > 0 {
        lemma_longest_match_is_longest(tb, b, len - 1);
        lemma_vocab_id(tb, b.take(len));
    }
}

} // verus!
