//! Where a project environment's template library snapshot is cached: a
//! directory named by the SHA-256 hash of what decides the snapshot (project
//! root, interpreter, settings module, extra Python paths), and which cached
//! snapshots are still good (those written by this version).
use vstd::prelude::*;
use vstd::string::StrSliceExecFns;
use vstd::string::StringExecFns;
use vstd::utf8::{encode_scalar, has_width_1_encoding};
use sha2::Digest;

use crate::interpreter::Interpreter;
use crate::paths::{joined, path_join};
use crate::snapshots::TemplateLibrarySnapshot;
use crate::text::{str_eq, utf8, views};

verus! {

/// `format!("{:?}", s)` for a string: `s` quoted and escaped as Rust's
/// `Debug` for `str` writes it.
pub uninterp spec fn debug_quoted(s: Seq<char>) -> Seq<char>;

/// Rust's `Debug` text of a string (`format!("{:?}")`); the text is named by
/// [`debug_quoted`], not described.
#[verifier::external_body]
fn str_debug(s: &str) -> (r: String)
    ensures
        r@ == debug_quoted(s@),
{
    format!("{s:?}")
}

/// The `Debug` text of an interpreter, as `derive(Debug)` writes it.
pub open spec fn interpreter_text(i: Interpreter) -> Seq<char> {
    match i {
        Interpreter::Auto => "Auto"@,
        Interpreter::VenvPath(p) => "VenvPath("@ + debug_quoted(p@) + ")"@,
        Interpreter::InterpreterPath(p) => "InterpreterPath("@ + debug_quoted(p@) + ")"@,
    }
}

fn interpreter_debug(i: &Interpreter) -> (r: String)
    ensures
        r@ == interpreter_text(*i),
{
    match i {
        Interpreter::Auto => "Auto".to_string(),
        Interpreter::VenvPath(p) => {
            let head = crate::text::concat("VenvPath(", str_debug(p.as_str()).as_str());
            crate::text::concat(head.as_str(), ")")
        },
        Interpreter::InterpreterPath(p) => {
            let head = crate::text::concat("InterpreterPath(", str_debug(p.as_str()).as_str());
            crate::text::concat(head.as_str(), ")")
        },
    }
}

/// The SHA-256 digest of `bytes`, as `sha2::Sha256` computes it.
pub uninterp spec fn sha256_digest(bytes: Seq<u8>) -> Seq<u8>;

/// `sha2::Sha256::digest`: the digest is named by [`sha256_digest`]; it is
/// 32 bytes long, the output size `Sha256` declares.
#[verifier::external_body]
fn sha256(bytes: &[u8]) -> (r: Vec<u8>)
    ensures
        r@ == sha256_digest(bytes@),
        r@.len() == 32,
{
    sha2::Sha256::digest(bytes).to_vec()
}

/// The extra Python paths, each followed by a zero byte.
pub open spec fn pythonpath_bytes(paths: Seq<Seq<char>>) -> Seq<u8>
    decreases paths.len(),
{
    if paths.len() == 0 {
        Seq::empty()
    } else {
        pythonpath_bytes(paths.drop_last()) + utf8(paths.last()) + seq![0u8]
    }
}

/// What is hashed: the root, the interpreter's `Debug` text and the settings
/// module (empty when there is none), each followed by a zero byte, then the
/// extra Python paths.
pub open spec fn cache_key_message(
    root: Seq<char>,
    interpreter: Interpreter,
    settings_module: Option<Seq<char>>,
    pythonpath: Seq<Seq<char>>,
) -> Seq<u8> {
    utf8(root) + seq![0u8] + utf8(interpreter_text(interpreter)) + seq![0u8] + utf8(
        match settings_module {
            Some(m) => m,
            None => Seq::empty(),
        },
    ) + seq![0u8] + pythonpath_bytes(pythonpath)
}

/// The lowercase hexadecimal digits, in order.
pub open spec fn hex_digits() -> Seq<char> {
    seq!['0', '1', '2', '3', '4', '5', '6', '7', '8', '9', 'a', 'b', 'c', 'd', 'e', 'f']
}

/// The lowercase hexadecimal digit of `d` (below 16).
pub open spec fn hex_digit(d: u8) -> char {
    hex_digits()[d as int]
}

/// The bytes in lowercase hexadecimal, two digits each.
pub open spec fn hex_text(bytes: Seq<u8>) -> Seq<char>
    decreases bytes.len(),
{
    if bytes.len() == 0 {
        Seq::empty()
    } else {
        hex_text(bytes.drop_last()) + seq![hex_digit(bytes.last() / 16), hex_digit(bytes.last() % 16)]
    }
}

proof fn lemma_hex_text_len(bytes: Seq<u8>)
    ensures
        hex_text(bytes).len() == 2 * bytes.len(),
    decreases bytes.len(),
{
    if bytes.len() > 0 {
        lemma_hex_text_len(bytes.drop_last());
    }
}

/// Appends the hexadecimal digit of `d`.
fn push_hex_digit(key: &mut String, d: u8)
    requires
        d < 16,
    ensures
        final(key)@ == old(key)@.push(hex_digit(d)),
{
    let table = "0123456789abcdef";
    proof {
        reveal_strlit("0123456789abcdef");
        assert(table@ =~= hex_digits());
    }
    let piece = table.substring_char(d as usize, d as usize + 1);
    assert(piece@ =~= seq![hex_digit(d)]);
    key.append(piece);
}

fn push_bytes(out: &mut Vec<u8>, bytes: &[u8])
    ensures
        final(out)@ == old(out)@ + bytes@,
{
    let mut i: usize = 0;
    let ghost start = out@;
    while i < bytes.len()
        invariant
            i <= bytes.len(),
            out@ == start + bytes@.take(i as int),
        decreases bytes.len() - i,
    {
        out.push(bytes[i]);
        assert(bytes@.take(i + 1) =~= bytes@.take(i as int).push(bytes@[i as int]));
        i = i + 1;
    }
    assert(bytes@.take(i as int) =~= bytes@);
}

/// The cache key of a project environment: the SHA-256 of
/// [`cache_key_message`], in lowercase hexadecimal.
pub fn cache_key(
    root: &str,
    interpreter: &Interpreter,
    django_settings_module: Option<&str>,
    pythonpath: &Vec<String>,
) -> (r: String)
    ensures
        r@ == hex_text(
            sha256_digest(
                cache_key_message(
                    root@,
                    *interpreter,
                    match django_settings_module {
                        Some(m) => Some(m@),
                        None => None,
                    },
                    views(pythonpath@),
                ),
            ),
        ),
        r@.len() == 64,
{
    let zero: [u8; 1] = [0u8];
    let mut message: Vec<u8> = Vec::new();
    push_bytes(&mut message, root.as_bytes());
    push_bytes(&mut message, &zero);
    let text = interpreter_debug(interpreter);
    push_bytes(&mut message, text.as_str().as_bytes());
    push_bytes(&mut message, &zero);
    let module = match django_settings_module {
        Some(m) => m,
        None => "",
    };
    push_bytes(&mut message, module.as_bytes());
    push_bytes(&mut message, &zero);
    let ghost head = message@;
    let mut i: usize = 0;
    assert(views(pythonpath@).take(0) =~= Seq::<Seq<char>>::empty());
    assert(message@ =~= head + pythonpath_bytes(views(pythonpath@).take(0)));
    while i < pythonpath.len()
        invariant
            i <= pythonpath.len(),
            zero@ == seq![0u8],
            message@ == head + pythonpath_bytes(views(pythonpath@).take(i as int)),
        decreases pythonpath.len() - i,
    {
        assert(views(pythonpath@).take(i + 1).drop_last() =~= views(pythonpath@).take(i as int));
        push_bytes(&mut message, pythonpath[i].as_str().as_bytes());
        push_bytes(&mut message, &zero);
        assert(message@ =~= head + pythonpath_bytes(views(pythonpath@).take(i + 1)));
        i = i + 1;
    }
    assert(views(pythonpath@).take(i as int) =~= views(pythonpath@));
    proof {
        reveal_strlit("");
        assert(utf8(""@) =~= Seq::<u8>::empty());
    }
    let digest = sha256(message.as_slice());
    let mut key = String::new();
    let mut j: usize = 0;
    while j < digest.len()
        invariant
            j <= digest.len(),
            key@ == hex_text(digest@.take(j as int)),
        decreases digest.len() - j,
    {
        let b = digest[j];
        push_hex_digit(&mut key, b / 16);
        push_hex_digit(&mut key, b % 16);
        assert(digest@.take(j + 1).drop_last() =~= digest@.take(j as int));
        assert(key@ =~= hex_text(digest@.take(j + 1)));
        j = j + 1;
    }
    assert(digest@.take(j as int) =~= digest@);
    proof {
        lemma_hex_text_len(digest@);
    }
    key
}

/// The cache directory of a project environment under the user's cache
/// directory `base`: `inspector/` and the first 16 digits of the key.
pub fn cache_dir(
    base: &str,
    root: &str,
    interpreter: &Interpreter,
    django_settings_module: Option<&str>,
    pythonpath: &Vec<String>,
) -> (r: String)
    ensures
        r@ == joined(
            joined(base@, "inspector"@),
            hex_text(
                sha256_digest(
                    cache_key_message(
                        root@,
                        *interpreter,
                        match django_settings_module {
                            Some(m) => Some(m@),
                            None => None,
                        },
                        views(pythonpath@),
                    ),
                ),
            ).take(16),
        ),
{
    let key = cache_key(root, interpreter, django_settings_module, pythonpath);
    let dir = path_join(base, "inspector");
    let prefix = key.as_str().substring_char(0, 16);
    assert(prefix@ =~= key@.take(16));
    path_join(dir.as_str(), prefix)
}

proof fn lemma_scalar_no_zero(c: u32)
    requires
        c != 0,
    ensures
        forall|i: int| 0 <= i < encode_scalar(c).len() ==> encode_scalar(c)[i] != 0,
{
    if has_width_1_encoding(c) {
        assert((c & 0x7F) as u8 != 0) by (bit_vector)
            requires
                c != 0,
                c <= 0x7F,
        ;
    } else {
        assert((0xC0u8 | ((c >> 6) & 0x1F) as u8) != 0) by (bit_vector);
        assert((0xE0u8 | ((c >> 12) & 0x0F) as u8) != 0) by (bit_vector);
        assert((0xF0u8 | ((c >> 18) & 0x7) as u8) != 0) by (bit_vector);
        assert((0x80u8 | (c & 0x3F) as u8) != 0) by (bit_vector);
        assert((0x80u8 | ((c >> 6) & 0x3F) as u8) != 0) by (bit_vector);
        assert((0x80u8 | ((c >> 12) & 0x3F) as u8) != 0) by (bit_vector);
    }
}

/// A string without a NUL character has no zero byte in its UTF-8 encoding.
proof fn lemma_utf8_no_zero(s: Seq<char>)
    requires
        !s.contains('\0'),
    ensures
        forall|i: int| 0 <= i < utf8(s).len() ==> utf8(s)[i] != 0,
    decreases s.len(),
{
    if s.len() > 0 {
        assert(s[0] != '\0');
        assert(s[0] as u32 != 0) by {
            if s[0] as u32 == 0 {
                vstd::utf8::char_u32_cast(s[0], s[0] as u32);
                vstd::utf8::char_u32_cast('\0', '\0' as u32);
            }
        }
        lemma_scalar_no_zero(s[0] as u32);
        assert(!s.drop_first().contains('\0')) by {
            if s.drop_first().contains('\0') {
                let k = choose|k: int| 0 <= k < s.drop_first().len() && s.drop_first()[k] == '\0';
                assert(s[k + 1] == '\0');
            }
        }
        lemma_utf8_no_zero(s.drop_first());
        let head = encode_scalar(s[0] as u32);
        let rest = utf8(s.drop_first());
        assert(utf8(s) == head + rest);
        assert forall|i: int| 0 <= i < utf8(s).len() implies utf8(s)[i] != 0 by {
            if i < head.len() {
                assert(utf8(s)[i] == head[i]);
            } else {
                assert(utf8(s)[i] == rest[i - head.len()]);
            }
        }
    }
}

proof fn lemma_hex_digit_injective(a: u8, b: u8)
    requires
        a < 16,
        b < 16,
        hex_digit(a) == hex_digit(b),
    ensures
        a == b,
{
}

/// Equal hexadecimal texts come from equal bytes.
proof fn lemma_hex_text_injective(a: Seq<u8>, b: Seq<u8>)
    requires
        hex_text(a) == hex_text(b),
    ensures
        a == b,
    decreases a.len(),
{
    lemma_hex_text_len(a);
    lemma_hex_text_len(b);
    if a.len() > 0 {
        let ta = hex_text(a);
        let n = ta.len();
        lemma_hex_text_len(a.drop_last());
        lemma_hex_text_len(b.drop_last());
        assert(ta[n - 2] == hex_digit(a.last() / 16) && ta[n - 1] == hex_digit(a.last() % 16));
        assert(ta[n - 2] == hex_digit(b.last() / 16) && ta[n - 1] == hex_digit(b.last() % 16));
        lemma_hex_digit_injective(a.last() / 16, b.last() / 16);
        lemma_hex_digit_injective(a.last() % 16, b.last() % 16);
        assert(hex_text(a.drop_last()) =~= ta.take(n - 2));
        assert(hex_text(b.drop_last()) =~= ta.take(n - 2));
        lemma_hex_text_injective(a.drop_last(), b.drop_last());
        assert(a =~= a.drop_last().push(a.last()));
        assert(b =~= b.drop_last().push(b.last()));
    } else {
        assert(a =~= b);
    }
}

/// Two project roots (neither holding a NUL character) that differ hash
/// different messages, so their cache keys can only be equal where SHA-256
/// gives two different messages the same digest.
pub proof fn law_distinct_roots_collide_only_through_sha256(
    root_a: Seq<char>,
    root_b: Seq<char>,
    interpreter: Interpreter,
    settings_module: Option<Seq<char>>,
    pythonpath: Seq<Seq<char>>,
)
    requires
        root_a != root_b,
        !root_a.contains('\0'),
        !root_b.contains('\0'),
    ensures
        cache_key_message(root_a, interpreter, settings_module, pythonpath) != cache_key_message(
            root_b,
            interpreter,
            settings_module,
            pythonpath,
        ),
        hex_text(sha256_digest(cache_key_message(root_a, interpreter, settings_module, pythonpath)))
            == hex_text(sha256_digest(cache_key_message(root_b, interpreter, settings_module, pythonpath)))
            ==> sha256_digest(cache_key_message(root_a, interpreter, settings_module, pythonpath))
            == sha256_digest(cache_key_message(root_b, interpreter, settings_module, pythonpath)),
{
    let ma = cache_key_message(root_a, interpreter, settings_module, pythonpath);
    let mb = cache_key_message(root_b, interpreter, settings_module, pythonpath);
    let ua = utf8(root_a);
    let ub = utf8(root_b);
    crate::text::lemma_utf8_injective(root_a, root_b);
    lemma_utf8_no_zero(root_a);
    lemma_utf8_no_zero(root_b);
    if ma == mb {
        if ua.len() == ub.len() {
            assert forall|i: int| 0 <= i < ua.len() implies ua[i] == ub[i] by {
                assert(ma[i] == ua[i]);
                assert(mb[i] == ub[i]);
            }
            assert(ua =~= ub);
        } else if ua.len() < ub.len() {
            assert(ma[ua.len() as int] == 0);
            assert(mb[ua.len() as int] == ub[ua.len() as int]);
        } else {
            assert(mb[ub.len() as int] == 0);
            assert(ma[ub.len() as int] == ua[ub.len() as int]);
        }
    }
    if hex_text(sha256_digest(ma)) == hex_text(sha256_digest(mb)) {
        lemma_hex_text_injective(sha256_digest(ma), sha256_digest(mb));
    }
}

/// A cached snapshot is used only when this version wrote it.
pub fn current_cached_snapshot(
    cached_version: &str,
    current_version: &str,
    snapshot: TemplateLibrarySnapshot,
) -> (r: Option<TemplateLibrarySnapshot>)
    ensures
        r is Some <==> cached_version@ == current_version@,
        r matches Some(s) ==> s == snapshot,
{
    if str_eq(cached_version, current_version) {
        Some(snapshot)
    } else {
        None
    }
}

} // verus!
