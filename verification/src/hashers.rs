//! Hash algorithms, the built-in SHA-256 hasher, and what the library
//! decides around an external hashing command: the arguments it receives and
//! how its output is read.

use vstd::prelude::*;
use vstd::utf8::*;

use crate::config::InputMode;
use crate::text::{
    ascii_lower_char, decimal_digits, decimal_text, hex_lower, is_lower_hex_char, is_white_space, lemma_hex_lower_chars,
    lemma_hex_lower_len, replace_all, replace_all_str, string_from_utf8_lossy, to_hex_lower,
    to_lowercase, trim, trim_end, trim_start, trimmed, lowercased, utf8_lossy,
};

verus! {

/// A hash algorithm that a configured hasher is expected to produce.
#[derive(Debug, Clone, Copy, PartialEq, Eq, Structural)]
pub enum HashAlgorithm {
    Sha256,
    Sha1,
    Sha512,
    Md5,
}

impl HashAlgorithm {
    /// The lower-case name of the algorithm.
    pub open spec fn name_spec(self) -> Seq<char> {
        match self {
            HashAlgorithm::Sha256 => "sha256"@,
            HashAlgorithm::Sha1 => "sha1"@,
            HashAlgorithm::Sha512 => "sha512"@,
            HashAlgorithm::Md5 => "md5"@,
        }
    }

    /// The number of hexadecimal digits of a digest of this algorithm.
    pub open spec fn hex_len(self) -> nat {
        match self {
            HashAlgorithm::Sha256 => 64,
            HashAlgorithm::Sha1 => 40,
            HashAlgorithm::Sha512 => 128,
            HashAlgorithm::Md5 => 32,
        }
    }

    /// The regular expression that finds a digest of this algorithm in a
    /// command's output: a word of exactly `hex_len` hexadecimal digits, in
    /// either case.
    pub open spec fn pattern_spec(self) -> Seq<char> {
        match self {
            HashAlgorithm::Sha256 => "(?i)\\b[a-f0-9]{64}\\b"@,
            HashAlgorithm::Sha1 => "(?i)\\b[a-f0-9]{40}\\b"@,
            HashAlgorithm::Sha512 => "(?i)\\b[a-f0-9]{128}\\b"@,
            HashAlgorithm::Md5 => "(?i)\\b[a-f0-9]{32}\\b"@,
        }
    }

    pub fn name(&self) -> (r: &'static str)
        ensures
            r@ == self.name_spec(),
    {
        match self {
            HashAlgorithm::Sha256 => "sha256",
            HashAlgorithm::Sha1 => "sha1",
            HashAlgorithm::Sha512 => "sha512",
            HashAlgorithm::Md5 => "md5",
        }
    }

    fn pattern(&self) -> (r: &'static str)
        ensures
            r@ == self.pattern_spec(),
    {
        match self {
            HashAlgorithm::Sha256 => "(?i)\\b[a-f0-9]{64}\\b",
            HashAlgorithm::Sha1 => "(?i)\\b[a-f0-9]{40}\\b",
            HashAlgorithm::Sha512 => "(?i)\\b[a-f0-9]{128}\\b",
            HashAlgorithm::Md5 => "(?i)\\b[a-f0-9]{32}\\b",
        }
    }

    /// The compiled regular expression for this algorithm's digests.
    pub fn regex(&self) -> (r: HashRegex)
        ensures
            r@ == self.pattern_spec(),
    {
        compile_hash_regex(self.pattern())
    }
}

/// A configured algorithm name, normalized as the configuration reader does
/// it: surrounding whitespace removed, lower-cased, and every `-` dropped.
pub open spec fn normalized_algorithm_name(s: Seq<char>) -> Seq<char> {
    replace_all(lowercased(trimmed(s)), "-"@, ""@)
}

/// The algorithm that a normalized name denotes, if any.
pub open spec fn algorithm_named(n: Seq<char>) -> Option<HashAlgorithm> {
    if n == "sha256"@ {
        Some(HashAlgorithm::Sha256)
    } else if n == "sha1"@ {
        Some(HashAlgorithm::Sha1)
    } else if n == "sha512"@ {
        Some(HashAlgorithm::Sha512)
    } else if n == "md5"@ {
        Some(HashAlgorithm::Md5)
    } else {
        None
    }
}

/// The algorithm that a configuration text selects.
pub open spec fn parsed_algorithm(s: Seq<char>) -> Option<HashAlgorithm> {
    algorithm_named(normalized_algorithm_name(s))
}

/// The message given for a configuration text that names no algorithm.
pub open spec fn unknown_algorithm_message(s: Seq<char>) -> Seq<char> {
    "Unknown hash algorithm: '"@ + normalized_algorithm_name(s) + "'"@
}

fn same_text(a: &String, b: &str) -> (r: bool)
    ensures
        r == (a@ == b@),
{
    let t = String::from_str(b);
    *a == t
}

/// Reads an algorithm from its configured name, as the configuration's
/// deserializer does: `" SHA-256 "` and `"sha256"` both select SHA-256.
pub fn parse_hash_algorithm(s: &str) -> (r: Result<HashAlgorithm, String>)
    ensures
        match r {
            Ok(a) => parsed_algorithm(s@) == Some(a),
            Err(msg) => parsed_algorithm(s@) is None && msg@ == unknown_algorithm_message(s@),
        },
{
    let lowered = to_lowercase(trim(s));
    proof {
        reveal_strlit("-");
    }
    let normalized = replace_all_str(lowered.as_str(), "-", "");
    if same_text(&normalized, "sha256") {
        Ok(HashAlgorithm::Sha256)
    } else if same_text(&normalized, "sha1") {
        Ok(HashAlgorithm::Sha1)
    } else if same_text(&normalized, "sha512") {
        Ok(HashAlgorithm::Sha512)
    } else if same_text(&normalized, "md5") {
        Ok(HashAlgorithm::Md5)
    } else {
        let mut msg = String::from_str("Unknown hash algorithm: '");
        msg.append(normalized.as_str());
        msg.append("'");
        Err(msg)
    }
}

/// Removing a pattern that does not occur leaves a text unchanged.
pub proof fn lemma_replace_absent(s: Seq<char>, pat: Seq<char>, rep: Seq<char>)
    requires
        pat.len() > 0,
        forall|i: int| 0 <= i < s.len() ==> s[i] != pat[0],
    ensures
        replace_all(s, pat, rep) == s,
    decreases s.len(),
{
    if s.len() > 0 {
        if pat.len() <= s.len() && s.take(pat.len() as int) == pat {
            assert(s.take(pat.len() as int)[0] == s[0]);
        }
        lemma_replace_absent(s.skip(1), pat, rep);
        assert(seq![s[0]] + s.skip(1) =~= s);
    }
}

/// A lower-case ASCII name without surrounding whitespace or `-` is its own
/// normalized form.
proof fn lemma_plain_name_normalizes_to_itself(n: Seq<char>)
    requires
        n.len() > 0,
        forall|i: int| 0 <= i < n.len() ==> ('a' <= #[trigger] n[i] <= 'z' || '0' <= n[i] <= '9'),
    ensures
        normalized_algorithm_name(n) == n,
{
    reveal_strlit("-");
    assert(!is_white_space(n[0]));
    assert(trim_start(n) == n);
    assert(!is_white_space(n.last()));
    assert(trim_end(n) == n);
    assert(is_ascii_chars(n));
    assert(n.map_values(|c: char| ascii_lower_char(c)) =~= n);
    lemma_replace_absent(n, "-"@, ""@);
}

/// Law: the name of every algorithm reads back as that algorithm.
pub proof fn lemma_name_parses_back(a: HashAlgorithm)
    ensures
        parsed_algorithm(a.name_spec()) == Some(a),
{
    reveal_strlit("sha256");
    reveal_strlit("sha1");
    reveal_strlit("sha512");
    reveal_strlit("md5");
    let n = a.name_spec();
    lemma_plain_name_normalizes_to_itself(n);
    assert("sha256"@.len() == 6);
    assert("sha1"@.len() == 4);
    assert("md5"@.len() == 3);
    assert("sha512"@[3] != "sha256"@[3]);
}

// ---------------------------------------------------------------------------
// Regular expressions
// ---------------------------------------------------------------------------

#[verifier::external_type_specification]
#[verifier::external_body]
pub struct ExRegex(regex::Regex);

/// The patterns from which a [`HashRegex`] is compiled.
pub open spec fn is_hash_pattern(p: Seq<char>) -> bool {
    exists|a: HashAlgorithm| a.pattern_spec() == p
}

/// Law: every algorithm's pattern is the same case-insensitive search for a
/// word of exactly as many hexadecimal digits as its digests have: the flag
/// `(?i)`, then `\\b[a-f0-9]{N}\\b` with `N` the digest's hexadecimal length.
pub proof fn lemma_pattern_is_case_insensitive_hex_word(a: HashAlgorithm)
    ensures
        a.pattern_spec() == "(?i)\\b[a-f0-9]{"@ + decimal_text(a.hex_len() as int) + "}\\b"@,
        a.pattern_spec().take(4) == "(?i)"@,
{
    reveal_strlit("(?i)\\b[a-f0-9]{64}\\b");
    reveal_strlit("(?i)\\b[a-f0-9]{40}\\b");
    reveal_strlit("(?i)\\b[a-f0-9]{128}\\b");
    reveal_strlit("(?i)\\b[a-f0-9]{32}\\b");
    reveal_strlit("(?i)\\b[a-f0-9]{");
    reveal_strlit("}\\b");
    reveal_strlit("(?i)");
    reveal_with_fuel(decimal_digits, 3);
    let p = a.pattern_spec();
    let q = "(?i)\\b[a-f0-9]{"@ + decimal_text(a.hex_len() as int) + "}\\b"@;
    assert(decimal_digits(6) == seq!['6']);
    assert(decimal_digits(4) == seq!['4']);
    assert(decimal_digits(12) == seq!['1', '2']);
    assert(decimal_digits(3) == seq!['3']);
    assert(p =~= q);
    assert(p.take(4) =~= "(?i)"@);
}

/// Different algorithms have different patterns.
pub proof fn lemma_pattern_injective(a: HashAlgorithm, b: HashAlgorithm)
    requires
        a.pattern_spec() == b.pattern_spec(),
    ensures
        a == b,
{
    reveal_strlit("(?i)\\b[a-f0-9]{64}\\b");
    reveal_strlit("(?i)\\b[a-f0-9]{40}\\b");
    reveal_strlit("(?i)\\b[a-f0-9]{128}\\b");
    reveal_strlit("(?i)\\b[a-f0-9]{32}\\b");
    assert(a.pattern_spec()[15] == b.pattern_spec()[15]);
    assert(a.pattern_spec()[15] == digit_mark(a));
    assert(b.pattern_spec()[15] == digit_mark(b));
}

spec fn digit_mark(a: HashAlgorithm) -> char {
    match a {
        HashAlgorithm::Sha256 => '6',
        HashAlgorithm::Sha1 => '4',
        HashAlgorithm::Sha512 => '1',
        HashAlgorithm::Md5 => '3',
    }
}

/// The number of digits that a hash pattern's matches have.
pub open spec fn pattern_digits(p: Seq<char>) -> nat {
    (choose|a: HashAlgorithm| a.pattern_spec() == p).hex_len()
}

/// An ASCII hexadecimal digit in either case.
pub open spec fn is_hex_digit_char(c: char) -> bool {
    ('0' <= c <= '9') || ('a' <= c <= 'f') || ('A' <= c <= 'F')
}

/// `m` occurs in `s` as a contiguous run of characters.
pub open spec fn occurs_in(m: Seq<char>, s: Seq<char>) -> bool {
    exists|i: int| 0 <= i && i + m.len() <= s.len() && #[trigger] s.subrange(i, i + m.len()) == m
}

/// `m` is a run of exactly `n` hexadecimal digits.
pub open spec fn is_hex_run(m: Seq<char>, n: nat) -> bool {
    m.len() == n && forall|i: int| 0 <= i < m.len() ==> is_hex_digit_char(#[trigger] m[i])
}

/// A compiled regular expression, kept with the pattern it was compiled from.
pub struct HashRegex {
    re: regex::Regex,
    pattern: &'static str,
}

impl View for HashRegex {
    type V = Seq<char>;

    closed spec fn view(&self) -> Seq<char> {
        self.pattern@
    }
}

/// What `Regex::find` returns for a haystack, as text: the leftmost-first
/// match of the pattern, if there is one.
pub uninterp spec fn regex_first_match(pattern: Seq<char>, haystack: Seq<char>) -> Option<Seq<char>>;

/// `regex::Regex::new`, on one of the hash patterns, which all compile; the
/// compiled expression is kept with its pattern.
#[verifier::external_body]
fn compile_hash_regex(pattern: &'static str) -> (r: HashRegex)
    requires
        is_hash_pattern(pattern@),
    ensures
        r@ == pattern@,
{
    HashRegex { re: regex::Regex::new(pattern).unwrap(), pattern }
}

impl HashRegex {
    /// `Regex::find`, with the match returned as text.  Its result is named by
    /// `regex_first_match` applied to the pattern the expression was compiled
    /// from; the regex syntax shows that a match is a part of the haystack
    /// made of exactly as many hexadecimal digits as the pattern counts.
    #[verifier::external_body]
    pub(crate) fn find(&self, haystack: &str) -> (m: Option<String>)
        ensures
            match m {
                Some(t) => regex_first_match(self@, haystack@) == Some(t@),
                None => regex_first_match(self@, haystack@) is None,
            },
            m matches Some(t) ==> occurs_in(t@, haystack@),
            m matches Some(t) ==> is_hash_pattern(self@) ==> is_hex_run(t@, pattern_digits(self@)),
    {
        match self.re.find(haystack) {
            Some(found) => Some(found.as_str().to_string()),
            None => None,
        }
    }
}

// ---------------------------------------------------------------------------
// Hashers
// ---------------------------------------------------------------------------

/// Something that turns a key into a hexadecimal digest.
///
/// An implementation may say, by `reports_name` and `gives`, which names it
/// reports and which results it gives for a key.  One that says nothing keeps
/// the defaults, which allow any name and any result: a hasher that runs an
/// outside command may give different results for the same key.
pub trait Hasher {
    /// `name` is a name that the hasher may report.
    open spec fn reports_name(&self, name: Seq<char>) -> bool {
        true
    }

    /// `result` is a result that the hasher may give for `input`.
    open spec fn gives(&self, input: Seq<char>, result: Result<Seq<char>, Seq<char>>) -> bool {
        true
    }

    fn name(&self) -> (r: &str)
        ensures
            self.reports_name(r@),
    ;

    fn hash(&self, input: &str) -> (r: Result<String, String>)
        ensures
            self.gives(input@, result_texts(r)),
    ;
}

/// SHA-256 of a byte string, as the `sha2` crate computes it.
pub uninterp spec fn sha256(data: Seq<u8>) -> Seq<u8>;

/// `sha2::Sha256::digest`: the 32-byte digest of the data, named by `sha256`.
#[verifier::external_body]
fn sha256_digest(data: &[u8]) -> (d: Vec<u8>)
    ensures
        d@ == sha256(data@),
        d@.len() == 32,
{
    <sha2::Sha256 as sha2::Digest>::digest(data).to_vec()
}

/// The digest that the built-in hasher gives for a key: SHA-256 of its UTF-8
/// bytes, in lower-case hexadecimal.
pub open spec fn builtin_digest(input: Seq<char>) -> Seq<char> {
    hex_lower(sha256(encode_utf8(input)))
}

/// The built-in hasher, computing SHA-256 in process.
pub struct RustSha256Hasher;

impl Hasher for RustSha256Hasher {
    open spec fn reports_name(&self, name: Seq<char>) -> bool {
        name == "Rust"@
    }

    /// The built-in hasher always gives the SHA-256 digest in hexadecimal.
    open spec fn gives(&self, input: Seq<char>, result: Result<Seq<char>, Seq<char>>) -> bool {
        result == Ok::<Seq<char>, Seq<char>>(builtin_digest(input))
    }

    fn name(&self) -> (r: &str)
        ensures
            r@ == "Rust"@,
    {
        "Rust"
    }

    fn hash(&self, input: &str) -> (r: Result<String, String>)
        ensures
            r matches Ok(h) && h@ == builtin_digest(input@),
            r matches Ok(h) && h@.len() == 64,
            r matches Ok(h) && forall|i: int| 0 <= i < h@.len() ==> is_lower_hex_char(#[trigger] h@[i]),
    {
        let digest = sha256_digest(input.as_bytes());
        proof {
            lemma_builtin_digest_shape(input@, digest@);
        }
        Ok(to_hex_lower(digest.as_slice()))
    }
}

/// Law: the built-in hasher always yields 64 lower-case hexadecimal digits.
pub proof fn lemma_builtin_digest_shape(input: Seq<char>, digest: Seq<u8>)
    requires
        digest == sha256(encode_utf8(input)),
        digest.len() == 32,
    ensures
        builtin_digest(input).len() == 64,
        forall|i: int|
            0 <= i < builtin_digest(input).len() ==> is_lower_hex_char(#[trigger] builtin_digest(input)[i]),
{
    lemma_hex_lower_len(digest);
    lemma_hex_lower_chars(digest);
}

/// A hasher that runs an outside command.
pub struct ExternalHasher {
    pub name: String,
    pub command: String,
    pub args: Vec<String>,
    pub algorithm: HashAlgorithm,
    pub input_mode: InputMode,
}

/// The texts held by a list of strings.
pub open spec fn texts(v: Seq<String>) -> Seq<Seq<char>> {
    v.map_values(|s: String| s@)
}

/// The placeholder in a command's arguments that stands for the input file.
pub open spec fn input_file_marker() -> Seq<char> {
    "{{INPUT_FILE}}"@
}

/// The arguments with which the command runs: in `Arg` mode the configured
/// arguments and then the key; in `Stdin` mode the configured arguments (the
/// key goes to standard input); in `File` mode the configured arguments with
/// each input-file placeholder replaced by the path of the file that holds
/// the key.
pub open spec fn command_args_spec(
    mode: InputMode,
    args: Seq<Seq<char>>,
    input: Seq<char>,
    input_file: Seq<char>,
) -> Seq<Seq<char>> {
    match mode {
        InputMode::Arg => args.push(input),
        InputMode::Stdin => args,
        InputMode::File => args.map_values(
            |a: Seq<char>| replace_all(a, input_file_marker(), input_file),
        ),
    }
}

/// Law: the arguments per input mode, element by element.  In `Arg` mode the
/// configured arguments come unchanged and the key is one more, last
/// argument; in `Stdin` mode the configured arguments come unchanged; in
/// `File` mode there are as many arguments as configured, and each one, at
/// whatever position, has every placeholder replaced by the path.
pub proof fn lemma_command_args_per_mode(
    mode: InputMode,
    args: Seq<Seq<char>>,
    input: Seq<char>,
    input_file: Seq<char>,
)
    ensures
        mode == InputMode::Arg ==> {
            let r = command_args_spec(mode, args, input, input_file);
            &&& r.len() == args.len() + 1
            &&& r[args.len() as int] == input
            &&& forall|i: int| 0 <= i < args.len() ==> #[trigger] r[i] == args[i]
        },
        mode == InputMode::Stdin ==> {
            let r = command_args_spec(mode, args, input, input_file);
            &&& r.len() == args.len()
            &&& forall|i: int| 0 <= i < args.len() ==> #[trigger] r[i] == args[i]
        },
        mode == InputMode::File ==> {
            let r = command_args_spec(mode, args, input, input_file);
            &&& r.len() == args.len()
            &&& forall|i: int|
                0 <= i < args.len() ==> #[trigger] r[i] == replace_all(args[i], input_file_marker(), input_file)
        },
{
}

/// Law: an argument that is exactly the placeholder becomes the path, and an
/// argument in which the placeholder's first character never occurs stays
/// as it is.
pub proof fn lemma_placeholder_replacement(a: Seq<char>, input_file: Seq<char>)
    ensures
        replace_all(input_file_marker(), input_file_marker(), input_file) == input_file,
        (forall|i: int| 0 <= i < a.len() ==> a[i] != '{') ==> replace_all(a, input_file_marker(), input_file)
            == a,
{
    reveal_strlit("{{INPUT_FILE}}");
    let m = input_file_marker();
    assert(m.take(m.len() as int) =~= m);
    assert(m.skip(m.len() as int) =~= Seq::<char>::empty());
    assert(replace_all(Seq::<char>::empty(), m, input_file) == Seq::<char>::empty());
    assert(input_file + Seq::<char>::empty() =~= input_file);
    if forall|i: int| 0 <= i < a.len() ==> a[i] != '{' {
        lemma_replace_absent(a, m, input_file);
    }
}

impl ExternalHasher {
    /// The arguments to run the command with, for the given key and (in
    /// `File` mode) the path of the file that holds it.
    pub fn command_args(&self, input: &str, input_file: &str) -> (r: Vec<String>)
        ensures
            texts(r@) == command_args_spec(self.input_mode, texts(self.args@), input@, input_file@),
    {
        let n = self.args.len();
        let mut out: Vec<String> = Vec::new();
        let mut i: usize = 0;
        proof {
            reveal_strlit("{{INPUT_FILE}}");
        }
        while i < n
            invariant
                input_file_marker().len() > 0,
                n == self.args@.len(),
                i <= n,
                out@.len() == i,
                forall|k: int|
                    0 <= k < i ==> (#[trigger] out@[k])@ == match self.input_mode {
                        InputMode::File => replace_all(
                            self.args@[k]@,
                            input_file_marker(),
                            input_file@,
                        ),
                        _ => self.args@[k]@,
                    },
            decreases n - i,
        {
            let a = &self.args[i];
            let item = match self.input_mode {
                InputMode::File => replace_all_str(a.as_str(), "{{INPUT_FILE}}", input_file),
                _ => a.clone(),
            };
            out.push(item);
            i = i + 1;
        }
        match self.input_mode {
            InputMode::Arg => {
                out.push(String::from_str(input));
            },
            _ => {},
        }
        assert(texts(out@) =~= command_args_spec(
            self.input_mode,
            texts(self.args@),
            input@,
            input_file@,
        ));
        out
    }
}

/// The message given when a command's output holds no digest.
pub open spec fn no_hash_message(algorithm: HashAlgorithm) -> Seq<char> {
    "No valid "@ + algorithm.name_spec() + " hash found in output"@
}

/// The digest read from a successful command's output, or the message that
/// none was found.
pub open spec fn hash_from_match(found: Option<Seq<char>>, algorithm: HashAlgorithm) -> Result<
    Seq<char>,
    Seq<char>,
> {
    match found {
        Some(m) => Ok(m),
        None => Err(no_hash_message(algorithm)),
    }
}

/// What a finished command yields: its standard error when it failed, else
/// the first digest of the algorithm found in its standard output.
pub open spec fn hash_from_output(
    success: bool,
    stdout: Seq<u8>,
    stderr: Seq<u8>,
    algorithm: HashAlgorithm,
) -> Result<Seq<char>, Seq<char>> {
    if !success {
        Err(utf8_lossy(stderr))
    } else {
        hash_from_match(regex_first_match(algorithm.pattern_spec(), utf8_lossy(stdout)), algorithm)
    }
}

pub open spec fn result_texts(r: Result<String, String>) -> Result<Seq<char>, Seq<char>> {
    match r {
        Ok(s) => Ok(s@),
        Err(s) => Err(s@),
    }
}

/// Turns the outcome of a search for a digest into the hasher's result.
pub fn hash_or_missing(found: Option<String>, algorithm: HashAlgorithm) -> (r: Result<String, String>)
    ensures
        result_texts(r) == hash_from_match(
            match found {
                Some(m) => Some(m@),
                None => None,
            },
            algorithm,
        ),
{
    match found {
        Some(m) => Ok(m),
        None => {
            let mut msg = String::from_str("No valid ");
            msg.append(algorithm.name());
            msg.append(" hash found in output");
            Err(msg)
        },
    }
}

/// Reads the result of an outside hashing command from its exit status and
/// output.
pub fn process_output_with_algorithm(
    success: bool,
    stdout: &[u8],
    stderr: &[u8],
    algorithm: HashAlgorithm,
) -> (r: Result<String, String>)
    ensures
        result_texts(r) == hash_from_output(success, stdout@, stderr@, algorithm),
        r matches Ok(h) ==> is_hex_run(h@, algorithm.hex_len()),
        r matches Ok(h) ==> occurs_in(h@, utf8_lossy(stdout@)),
{
    if !success {
        return Err(string_from_utf8_lossy(stderr));
    }
    let text = string_from_utf8_lossy(stdout);
    let re = algorithm.regex();
    let found = re.find(text.as_str());
    proof {
        if found is Some {
            assert(is_hash_pattern(re@));
            assert(pattern_digits(re@) == algorithm.hex_len()) by {
                let b = choose|b: HashAlgorithm| b.pattern_spec() == re@;
                lemma_pattern_injective(b, algorithm);
            }
        }
    }
    hash_or_missing(found, algorithm)
}

} // verus!
