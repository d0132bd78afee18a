//! Fitting text into a budget of tokens. The encoder that turns text into
//! tokens and back is the caller's; the decisions on the tokens are made
//! here.

use vstd::prelude::*;
use vstd::string::*;
use vstd::utf8::{encode_utf8, is_char_boundary, valid_utf8};
use tiktoken_rs::CoreBPE;
use crate::text::str_eq;

verus! {

/// What can go wrong around the encoder.
#[derive(Debug)]
pub enum TokenError {
    EncoderInit(String),
    EncodingFailed(String),
    DecodingFailed(String),
}

impl TokenError {
    /// The text shown for the failure.
    pub open spec fn text(self) -> Seq<char> {
        match self {
            TokenError::EncoderInit(e) => "Failed to initialize encoder: "@ + e@,
            TokenError::EncodingFailed(e) => "Encoding failed: "@ + e@,
            TokenError::DecodingFailed(e) => "Decoding failed: "@ + e@,
        }
    }

    /// The text shown for the failure.
    pub fn message(&self) -> (text: String)
        ensures
            text@ == self.text(),
    {
        let (head, detail) = match self {
            TokenError::EncoderInit(e) => ("Failed to initialize encoder: ", e),
            TokenError::EncodingFailed(e) => ("Encoding failed: ", e),
            TokenError::DecodingFailed(e) => ("Decoding failed: ", e),
        };
        let mut text = head.to_owned();
        text.append(detail.as_str());
        text
    }
}

/// The text that stands for what was cut off.
pub const ELLIPSIS: &'static str = "\u{2026}";

/// What becomes of a text that has to fit a number of tokens.
#[derive(Debug)]
pub enum Truncation {
    /// The text fits: it stays as it is.
    Whole,
    /// Nothing fits: the ellipsis alone stands for the text.
    Ellipsis,
    /// These tokens, decoded, stand for the text.
    Tokens(Vec<u32>),
}

/// The tokens of a truncated text: the first `max_tokens - 1` tokens of the
/// text and the token of the ellipsis.
pub open spec fn truncated_tokens(tokens: Seq<u32>, max_tokens: int, mark: u32) -> Seq<u32> {
    tokens.take(max_tokens - 1).push(mark)
}

/// Decides how the text with the given tokens is made to fit `max_tokens`
/// tokens. `ellipsis` holds the tokens of the ellipsis; its first token
/// marks the cut, and without one the text cannot be cut.
pub fn truncate_tokens(tokens: &Vec<u32>, max_tokens: usize, ellipsis: &Vec<u32>) -> (r: Result<
    Truncation,
    TokenError,
>)
    ensures
        tokens.len() <= max_tokens ==> r is Ok && r->Ok_0 is Whole,
        tokens.len() > max_tokens && max_tokens == 0 ==> r is Ok && r->Ok_0 is Ellipsis,
        tokens.len() > max_tokens && max_tokens > 0 && ellipsis.len() > 0 ==> r is Ok && r->Ok_0 is Tokens
            && r->Ok_0->Tokens_0@ == truncated_tokens(tokens@, max_tokens as int, ellipsis[0]),
        tokens.len() > max_tokens && max_tokens > 0 && ellipsis.len() == 0 ==> r is Err && r->Err_0
            is EncodingFailed && r->Err_0->EncodingFailed_0@ == "Failed to encode ellipsis"@,
{
    if tokens.len() <= max_tokens {
        return Ok(Truncation::Whole);
    }
    if max_tokens == 0 {
        return Ok(Truncation::Ellipsis);
    }
    let truncation_limit: usize = max_tokens - 1;
    if ellipsis.len() == 0 {
        return Err(TokenError::EncodingFailed("Failed to encode ellipsis".to_owned()));
    }
    let ellipsis_token: u32 = ellipsis[0];
    let mut truncated: Vec<u32> = Vec::new();
    let mut i: usize = 0;
    while i < truncation_limit
        invariant
            i <= truncation_limit < tokens.len(),
            truncated@ == tokens@.take(i as int),
        decreases truncation_limit - i,
    {
        truncated.push(tokens[i]);
        assert(truncated@ =~= tokens@.take(i + 1));
        i += 1;
    }
    truncated.push(ellipsis_token);
    Ok(Truncation::Tokens(truncated))
}

/// The tokens that a provider takes when none are configured.
pub open spec fn default_token_limit(provider: Seq<char>) -> nat {
    if provider == "openai"@ {
        16_000
    } else if provider == "anthropic"@ {
        100_000
    } else if provider == "groq"@ || provider == "openrouter"@ {
        32_000
    } else if provider == "google"@ {
        1_000_000
    } else {
        8_000
    }
}

/// The tokens that the provider takes: the configured limit, or else the
/// one that is usual for the provider.
pub fn token_limit_for(provider: &str, configured: Option<usize>) -> (limit: usize)
    ensures
        limit == match configured {
            Some(n) => n as nat,
            None => default_token_limit(provider@),
        },
{
    match configured {
        Some(n) => n,
        None => {
            if str_eq(provider, "openai") {
                16_000
            } else if str_eq(provider, "anthropic") {
                100_000
            } else if str_eq(provider, "groq") || str_eq(
                provider,
                "openrouter",
            ) {
                32_000
            } else if str_eq(provider, "google") {
                1_000_000
            } else {
                8_000
            }
        },
    }
}

/// What is left of `limit` tokens once `used` tokens and `reserve` more are
/// set aside; nothing where they do not fit.
pub open spec fn tokens_left(limit: nat, used: nat, reserve: nat) -> nat {
    if limit > used + reserve {
        (limit - used - reserve) as nat
    } else {
        0
    }
}

/// The tokens left for the context, with a thousand kept back for the
/// answer and its form.
pub fn context_token_limit(token_limit: usize, system_tokens: usize) -> (left: usize)
    ensures
        left == tokens_left(token_limit as nat, system_tokens as nat, 1000),
{
    token_limit.saturating_sub(system_tokens.saturating_add(1000))
}

/// The tokens left for a user prompt that has to be cut, with a hundred
/// kept back; `None` where the prompts fit the limit as they are.
pub fn user_token_limit(token_limit: usize, system_tokens: usize, user_tokens: usize) -> (cut: Option<
    usize,
>)
    ensures
        match cut {
            Some(left) => system_tokens + user_tokens > token_limit && left == tokens_left(
                token_limit as nat,
                system_tokens as nat,
                100,
            ),
            None => system_tokens + user_tokens <= token_limit,
        },
{
    let exceeds = match system_tokens.checked_add(user_tokens) {
        Some(total) => total > token_limit,
        None => true,
    };
    if exceeds {
        Some(token_limit.saturating_sub(system_tokens.saturating_add(100)))
    } else {
        None
    }
}

/// The byte-pair encoder of `tiktoken_rs`. Nothing inside it is seen here.
#[verifier::external_type_specification]
#[verifier::external_body]
pub struct ExCoreBPE(tiktoken_rs::CoreBPE);

/// What an encoder holds for decoding: the bytes of each token it knows,
/// ordinary or special.
pub uninterp spec fn token_bytes(encoder: CoreBPE) -> Map<u32, Seq<u8>>;

/// The bytes of the tokens, one after the other.
pub open spec fn bytes_of(known: Map<u32, Seq<u8>>, tokens: Seq<u32>) -> Seq<u8>
    decreases tokens.len(),
{
    if tokens.len() == 0 {
        Seq::empty()
    } else {
        bytes_of(known, tokens.drop_last()) + known[tokens.last()]
    }
}

/// The tokens can be decoded: each of them is known, and their bytes
/// together are UTF-8.
pub open spec fn decodable(known: Map<u32, Seq<u8>>, tokens: Seq<u32>) -> bool {
    (forall|i: int| 0 <= i < tokens.len() ==> known.dom().contains(#[trigger] tokens[i]))
        && valid_utf8(bytes_of(known, tokens))
}

/// Calls `tiktoken_rs::cl100k_base`, which builds the encoder from the
/// vocabulary that the crate carries. Nothing is claimed of the encoder;
/// a failure comes back as its text.
#[verifier::external_body]
fn new_encoder() -> Result<CoreBPE, String> {
    tiktoken_rs::cl100k_base().map_err(|e| e.to_string())
}

/// Calls `CoreBPE::decode`. It looks up the bytes of each token, puts them
/// together and reads them as UTF-8: the text comes back exactly when every
/// token is known and the bytes are valid, and its bytes are those bytes.
/// Any failure comes back as its text.
#[verifier::external_body]
fn decode(encoder: &CoreBPE, tokens: &Vec<u32>) -> (r: Result<String, String>)
    ensures
        match r {
            Ok(text) => decodable(token_bytes(*encoder), tokens@) && encode_utf8(text@) == bytes_of(
                token_bytes(*encoder),
                tokens@,
            ),
            Err(_) => !decodable(token_bytes(*encoder), tokens@),
        },
{
    encoder.decode(tokens.as_slice()).map_err(|e| e.to_string())
}

/// Fits texts into a budget of tokens.
pub struct TokenOptimizer {
    encoder: CoreBPE,
    max_tokens: usize,
}

/// What a text becomes when it has to fit `max_tokens` tokens, given its
/// tokens and those of the ellipsis: itself if it fits, the ellipsis alone
/// if nothing fits, else the text of its first tokens and the mark of the
/// cut. `Some` holds the bytes of the result; `None` stands for a failure.
pub open spec fn truncation_bytes(
    known: Map<u32, Seq<u8>>,
    text: Seq<char>,
    tokens: Seq<u32>,
    ellipsis: Seq<u32>,
    max_tokens: int,
) -> Option<Seq<u8>> {
    if tokens.len() <= max_tokens {
        Some(encode_utf8(text))
    } else if max_tokens == 0 {
        Some(encode_utf8(ELLIPSIS@))
    } else if ellipsis.len() == 0 {
        None
    } else if decodable(known, truncated_tokens(tokens, max_tokens, ellipsis[0])) {
        Some(bytes_of(known, truncated_tokens(tokens, max_tokens, ellipsis[0])))
    } else {
        None
    }
}

impl TokenOptimizer {
    /// The budget of the optimizer.
    pub closed spec fn budget(&self) -> nat {
        self.max_tokens as nat
    }

    /// What the encoder of the optimizer holds for decoding.
    pub closed spec fn known_tokens(&self) -> Map<u32, Seq<u8>> {
        token_bytes(self.encoder)
    }

    /// An optimizer for a budget of `max_tokens` tokens. It fails where the
    /// encoder cannot be built.
    pub fn new(max_tokens: usize) -> (r: Result<Self, TokenError>)
        ensures
            match r {
                Ok(optimizer) => optimizer.budget() == max_tokens,
                Err(e) => e is EncoderInit,
            },
    {
        match new_encoder() {
            Ok(encoder) => Ok(TokenOptimizer { encoder, max_tokens }),
            Err(e) => Err(TokenError::EncoderInit(e)),
        }
    }

    /// Create a token optimizer for counting only: it has no budget.
    pub fn for_counting() -> (r: Result<Self, TokenError>)
        ensures
            match r {
                Ok(optimizer) => optimizer.budget() == 0,
                Err(e) => e is EncoderInit,
            },
    {
        Self::new(0)
    }

    /// The budget of the optimizer.
    pub fn max_tokens(&self) -> (n: usize)
        ensures
            n == self.budget(),
    {
        self.max_tokens
    }

    /// The encoder, for turning text into tokens.
    pub fn encoder(&self) -> (encoder: &CoreBPE)
        ensures
            token_bytes(*encoder) == self.known_tokens(),
    {
        &self.encoder
    }

    /// Cuts the text `s` down to `max_tokens` tokens. `tokens` are the
    /// tokens of `s` and `ellipsis` those of the ellipsis, as the encoder
    /// gives them. A text that fits comes back as it is. Where nothing
    /// fits, the ellipsis alone comes back. Else the first `max_tokens - 1`
    /// tokens and the first token of the ellipsis are decoded; the call
    /// fails where the ellipsis has no token or the tokens do not decode.
    pub fn truncate_string(&self, s: &str, tokens: &Vec<u32>, ellipsis: &Vec<u32>, max_tokens: usize) -> (r:
        Result<String, TokenError>)
        ensures
            match r {
                Ok(text) => truncation_bytes(
                    self.known_tokens(),
                    s@,
                    tokens@,
                    ellipsis@,
                    max_tokens as int,
                ) == Some(encode_utf8(text@)),
                Err(e) => truncation_bytes(
                    self.known_tokens(),
                    s@,
                    tokens@,
                    ellipsis@,
                    max_tokens as int,
                ) is None && if ellipsis.len() == 0 {
                    e is EncodingFailed
                } else {
                    e is DecodingFailed
                },
            },
    {
        match truncate_tokens(tokens, max_tokens, ellipsis) {
            Err(e) => Err(e),
            Ok(Truncation::Whole) => Ok(s.to_owned()),
            Ok(Truncation::Ellipsis) => Ok(ELLIPSIS.to_owned()),
            Ok(Truncation::Tokens(truncated)) => match decode(&self.encoder, &truncated) {
                Ok(text) => Ok(text),
                Err(e) => Err(TokenError::DecodingFailed(e)),
            },
        }
    }
}

/// The number of bytes of a text that are summarized in one go.
pub const CHUNK_SIZE: usize = 4000;

/// The chunk of `size` bytes, or of what is left, that starts at byte `from`:
/// its bytes where it starts and ends between characters, nothing where it
/// cuts a character in two.
pub open spec fn chunk_at(bytes: Seq<u8>, from: int, size: int) -> Option<Seq<u8>> {
    let rest = bytes.subrange(from, bytes.len() as int);
    let n = if size < rest.len() {
        size
    } else {
        rest.len() as int
    };
    if is_char_boundary(bytes, from) && is_char_boundary(rest, n) {
        Some(rest.subrange(0, n))
    } else {
        None
    }
}

/// The chunks of a text from byte `from` on: the text is cut every `size`
/// bytes, and a piece that cuts a character in two is left out.
pub open spec fn chunks_from(bytes: Seq<u8>, from: int, size: int) -> Seq<Seq<u8>>
    decreases bytes.len() - from,
{
    if from < 0 || from >= bytes.len() || size <= 0 {
        Seq::empty()
    } else {
        let next = if from + size < bytes.len() {
            from + size
        } else {
            bytes.len() as int
        };
        let rest = chunks_from(bytes, next, size);
        match chunk_at(bytes, from, size) {
            Some(chunk) => seq![chunk] + rest,
            None => rest,
        }
    }
}

/// The bytes of each string.
pub open spec fn bytes_of_each(strings: Seq<String>) -> Seq<Seq<u8>> {
    Seq::new(strings.len(), |i: int| encode_utf8(strings[i]@))
}

/// Cuts a text into the chunks that are summarized one by one. A text of
/// one chunk or none is summarized as a whole.
pub fn summary_chunks(text: &str) -> (chunks: Vec<String>)
    ensures
        bytes_of_each(chunks@) == chunks_from(encode_utf8(text@), 0, CHUNK_SIZE as int),
{
    let total: usize = text.as_bytes().len();
    let ghost bytes = encode_utf8(text@);
    let mut chunks: Vec<String> = Vec::new();
    let mut from: usize = 0;
    assert(bytes_of_each(chunks@) =~= Seq::<Seq<u8>>::empty());
    while from < total
        invariant
            bytes == encode_utf8(text@),
            total == bytes.len(),
            chunks_from(bytes, 0, CHUNK_SIZE as int) == bytes_of_each(chunks@) + chunks_from(
                bytes,
                from as int,
                CHUNK_SIZE as int,
            ),
        decreases total - from,
    {
        let left: usize = total - from;
        let n: usize = if CHUNK_SIZE < left {
            CHUNK_SIZE
        } else {
            left
        };
        if text.is_char_boundary(from) {
            let (_, rest) = text.split_at(from);
            assert(rest.spec_bytes() == bytes.subrange(from as int, total as int));
            if rest.is_char_boundary(n) {
                let (chunk, _) = rest.split_at(n);
                let ghost before = bytes_of_each(chunks@);
                chunks.push(chunk.to_owned());
                proof {
                    assert(bytes_of_each(chunks@) =~= before.push(chunk.spec_bytes()));
                    assert(chunk_at(bytes, from as int, CHUNK_SIZE as int) == Some(chunk.spec_bytes()));
                    let next = if from + CHUNK_SIZE < total {
                        from + CHUNK_SIZE
                    } else {
                        total as int
                    };
                    assert(before + (seq![chunk.spec_bytes()] + chunks_from(
                        bytes,
                        next,
                        CHUNK_SIZE as int,
                    )) =~= before.push(chunk.spec_bytes()) + chunks_from(bytes, next, CHUNK_SIZE as int));
                }
            }
        }
        if left <= CHUNK_SIZE {
            from = total;
        } else {
            from = from + CHUNK_SIZE;
        }
    }
    proof {
        assert(chunks_from(bytes, from as int, CHUNK_SIZE as int) =~= Seq::<Seq<u8>>::empty());
    }
    chunks
}

/// The tokens that the summary of each chunk may take, so that all
/// summaries together fit `max_tokens` tokens.
pub fn chunk_token_limit(max_tokens: usize, chunks: usize) -> (each: usize)
    requires
        chunks > 0,
    ensures
        each == max_tokens / chunks,
{
    max_tokens / chunks
}

} // verus!
