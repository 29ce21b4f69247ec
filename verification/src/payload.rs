//! What a create request is recognized by: a hash of the request, the same after a restart.

use vstd::prelude::*;
use vstd::bytes::{lemma_auto_spec_u64_to_from_le_bytes, spec_u64_from_le_bytes, spec_u64_to_le_bytes, u64_to_le_bytes};
use vstd::utf8::{encode_utf8, encode_utf8_decode_utf8, encode_utf8_valid_utf8};

use crate::session::SessionView;
use crate::session_spawn::StructuredSessionSpec;
use crate::text::{blank, has_char, is_empty, join_texts, joined, lemma_split_joined, text_of, texts};

verus! {

/// Bytes behind their number.
pub open spec fn measured(value: Seq<u8>) -> Seq<u8> {
    spec_u64_to_le_bytes(value.len() as u64) + value
}

/// The bytes of one field: its name, a separator, the length of its value, the value, an end
/// mark.
pub open spec fn field_bytes(name: Seq<char>, value: Seq<u8>) -> Seq<u8> {
    encode_utf8(name) + seq![0x1fu8] + measured(value) + seq![0x1eu8]
}

/// The texts of a list one behind the other, each behind its length.
pub open spec fn entry_bytes(s: Seq<Seq<char>>) -> Seq<u8>
    decreases s.len(),
{
    if s.len() == 0 {
        Seq::empty()
    } else {
        measured(encode_utf8(s[0])) + entry_bytes(s.skip(1))
    }
}

/// Whether a list can be told from what its texts are joined to: no text holds the separator, and the
/// list is not the one with nothing but an empty text, which would look like no list at all.
pub open spec fn joinable(s: Seq<Seq<char>>) -> bool {
    &&& !(s.len() == 1 && s[0].len() == 0)
    &&& forall|i: int| 0 <= i < s.len() ==> !(#[trigger] s[i]).contains('\u{1f}')
}

/// The bytes of a list of texts: the texts joined, where the list can be told from that. Any other list
/// is written behind a byte that no text begins with: how many texts they are, then the texts, each
/// behind its length.
pub open spec fn list_bytes(s: Seq<Seq<char>>) -> Seq<u8> {
    if joinable(s) {
        encode_utf8(joined(s, "\u{1f}"@))
    } else {
        seq![0xffu8] + spec_u64_to_le_bytes(s.len() as u64) + entry_bytes(s)
    }
}

/// The bytes of a list of fields.
pub open spec fn payload(fields: Seq<(Seq<char>, Seq<u8>)>) -> Seq<u8>
    decreases fields.len(),
{
    if fields.len() == 0 {
        Seq::empty()
    } else {
        field_bytes(fields[0].0, fields[0].1) + payload(fields.skip(1))
    }
}

/// A text that may be missing, as the empty text where it is.
pub open spec fn or_blank(o: Option<String>) -> Seq<char> {
    match text_of(o) {
        Some(s) => s,
        None => Seq::empty(),
    }
}

/// The name of a truth value.
pub open spec fn truth(b: bool) -> Seq<char> {
    if b {
        "true"@
    } else {
        "false"@
    }
}

/// The name of a view.
pub open spec fn view_name(v: SessionView) -> Seq<char> {
    match v {
        SessionView::Terminal => "Terminal"@,
        SessionView::Structured => "Structured"@,
    }
}

/// The fields by which a request is recognized. Whether hooks are trusted is not among them.
pub open spec fn request_fields(s: StructuredSessionSpec) -> Seq<(Seq<char>, Seq<u8>)> {
    seq![
        ("version"@, encode_utf8("1"@)),
        ("title"@, encode_utf8(or_blank(s.title))),
        ("path"@, encode_utf8(s.path@)),
        ("group"@, encode_utf8(s.group@)),
        ("tool"@, encode_utf8(s.tool@)),
        ("worktree_enabled"@, encode_utf8(truth(s.worktree_enabled))),
        ("worktree_branch"@, encode_utf8(or_blank(s.worktree_branch))),
        ("create_new_branch"@, encode_utf8(truth(s.create_new_branch))),
        ("base_branch"@, encode_utf8(or_blank(s.base_branch))),
        ("sandbox"@, encode_utf8(truth(s.sandbox))),
        ("sandbox_image"@, encode_utf8(or_blank(s.sandbox_image))),
        ("yolo_mode"@, encode_utf8(truth(s.yolo_mode))),
        ("extra_env"@, list_bytes(texts(s.extra_env@))),
        ("extra_args"@, encode_utf8(s.extra_args@)),
        ("command_override"@, encode_utf8(s.command_override@)),
        ("extra_repo_paths"@, list_bytes(texts(s.extra_repo_paths@))),
        ("scratch"@, encode_utf8(truth(s.scratch))),
        ("custom_instruction"@, encode_utf8(or_blank(s.custom_instruction))),
        ("profile"@, encode_utf8(s.profile@)),
        ("initial_turn"@, encode_utf8(or_blank(s.pending_initial_turn))),
        ("acp_mode_id"@, encode_utf8(or_blank(s.acp_mode_id))),
        ("view"@, encode_utf8(view_name(s.view))),
        ("agent_name"@, encode_utf8(or_blank(s.agent_name))),
        ("agent_model"@, encode_utf8(or_blank(s.agent_model))),
        ("agent_effort"@, encode_utf8(or_blank(s.agent_effort))),
        ("import_acp_session_id"@, encode_utf8(or_blank(s.import_acp_session_id))),
    ]
}

/// The names and values of a list of fields.
pub open spec fn field_views(v: Seq<(String, Vec<u8>)>) -> Seq<(Seq<char>, Seq<u8>)> {
    Seq::new(v.len(), |i: int| (v[i].0@, v[i].1@))
}

fn text_or_blank(o: &Option<String>) -> (r: String)
    ensures
        r@ == or_blank(*o),
{
    match o {
        Some(s) => s.clone(),
        None => blank(),
    }
}

fn truth_name(b: bool) -> (r: String)
    ensures
        r@ == truth(b),
{
    if b {
        "true".to_owned()
    } else {
        "false".to_owned()
    }
}

fn put_bytes(out: &mut Vec<u8>, bytes: &[u8])
    ensures
        final(out)@ == old(out)@ + bytes@,
{
    let ghost before = out@;
    out.extend_from_slice(bytes);
    assert(out@ =~= before + bytes@);
}

fn put_measured(out: &mut Vec<u8>, value: &[u8])
    ensures
        final(out)@ == old(out)@ + measured(value@),
{
    let ghost before = out@;
    let length = u64_to_le_bytes(value.len() as u64);
    put_bytes(out, length.as_slice());
    put_bytes(out, value);
    assert(out@ =~= before + measured(value@));
}

fn field(name: &str, value: String) -> (r: (String, Vec<u8>))
    ensures
        r.0@ == name@,
        r.1@ == encode_utf8(value@),
{
    let mut bytes: Vec<u8> = Vec::new();
    put_bytes(&mut bytes, value.as_str().as_bytes());
    assert(bytes@ =~= encode_utf8(value@));
    (name.to_owned(), bytes)
}

fn is_joinable(v: &Vec<String>) -> (r: bool)
    ensures
        r == joinable(texts(v@)),
{
    if v.len() == 1 && is_empty(v[0].as_str()) {
        return false;
    }
    let mut i: usize = 0;
    while i < v.len()
        invariant
            i <= v@.len(),
            !(v@.len() == 1 && v@[0]@.len() == 0),
            forall|j: int| 0 <= j < i ==> !(#[trigger] texts(v@)[j]).contains('\u{1f}'),
        decreases v@.len() - i,
    {
        if has_char(v[i].as_str(), '\u{1f}') {
            assert(texts(v@)[i as int].contains('\u{1f}'));
            return false;
        }
        i = i + 1;
    }
    true
}

fn list_field(name: &str, v: &Vec<String>) -> (r: (String, Vec<u8>))
    ensures
        r.0@ == name@,
        r.1@ == list_bytes(texts(v@)),
{
    if is_joinable(v) {
        return field(name, join_texts(v, "\u{1f}"));
    }
    let ghost all = texts(v@);
    let mut bytes: Vec<u8> = Vec::new();
    let count = u64_to_le_bytes(v.len() as u64);
    bytes.push(0xff);
    put_bytes(&mut bytes, count.as_slice());
    let mut i: usize = 0;
    assert(all.skip(0) =~= all);
    assert(bytes@ + entry_bytes(all) =~= list_bytes(all));
    while i < v.len()
        invariant
            i <= v@.len(),
            all == texts(v@),
            bytes@ + entry_bytes(all.skip(i as int)) == list_bytes(all),
        decreases v@.len() - i,
    {
        let ghost before = bytes@;
        let ghost rest = all.skip(i as int);
        assert(rest[0] == v@[i as int]@);
        assert(rest.skip(1) =~= all.skip(i + 1));
        put_measured(&mut bytes, v[i].as_str().as_bytes());
        proof {
            let one = measured(encode_utf8(rest[0]));
            assert(before + (one + entry_bytes(rest.skip(1))) =~= (before + one) + entry_bytes(rest.skip(1)));
        }
        i = i + 1;
    }
    assert(all.skip(i as int) =~= Seq::<Seq<char>>::empty());
    assert(bytes@ + entry_bytes(all.skip(i as int)) =~= bytes@);
    (name.to_owned(), bytes)
}

/// The fields by which a request is recognized.
fn fields_of(s: &StructuredSessionSpec) -> (r: Vec<(String, Vec<u8>)>)
    ensures
        field_views(r@) == request_fields(*s),
{
    let mut v: Vec<(String, Vec<u8>)> = Vec::new();
    v.push(field("version", "1".to_owned()));
    v.push(field("title", text_or_blank(&s.title)));
    v.push(field("path", s.path.clone()));
    v.push(field("group", s.group.clone()));
    v.push(field("tool", s.tool.clone()));
    v.push(field("worktree_enabled", truth_name(s.worktree_enabled)));
    v.push(field("worktree_branch", text_or_blank(&s.worktree_branch)));
    v.push(field("create_new_branch", truth_name(s.create_new_branch)));
    v.push(field("base_branch", text_or_blank(&s.base_branch)));
    v.push(field("sandbox", truth_name(s.sandbox)));
    v.push(field("sandbox_image", text_or_blank(&s.sandbox_image)));
    v.push(field("yolo_mode", truth_name(s.yolo_mode)));
    v.push(list_field("extra_env", &s.extra_env));
    v.push(field("extra_args", s.extra_args.clone()));
    v.push(field("command_override", s.command_override.clone()));
    v.push(list_field("extra_repo_paths", &s.extra_repo_paths));
    v.push(field("scratch", truth_name(s.scratch)));
    v.push(field("custom_instruction", text_or_blank(&s.custom_instruction)));
    v.push(field("profile", s.profile.clone()));
    v.push(field("initial_turn", text_or_blank(&s.pending_initial_turn)));
    v.push(field("acp_mode_id", text_or_blank(&s.acp_mode_id)));
    let view = match s.view {
        SessionView::Terminal => "Terminal".to_owned(),
        SessionView::Structured => "Structured".to_owned(),
    };
    v.push(field("view", view));
    v.push(field("agent_name", text_or_blank(&s.agent_name)));
    v.push(field("agent_model", text_or_blank(&s.agent_model)));
    v.push(field("agent_effort", text_or_blank(&s.agent_effort)));
    v.push(field("import_acp_session_id", text_or_blank(&s.import_acp_session_id)));
    assert(field_views(v@) =~= request_fields(*s));
    v
}

fn put_field(out: &mut Vec<u8>, name: &str, value: &Vec<u8>)
    ensures
        final(out)@ == old(out)@ + field_bytes(name@, value@),
{
    let ghost before = out@;
    put_bytes(out, name.as_bytes());
    out.push(0x1f);
    put_measured(out, value.as_slice());
    out.push(0x1e);
    assert(out@ =~= before + field_bytes(name@, value@));
}

/// The bytes of the fields by which a request is recognized.
pub fn payload_bytes(s: &StructuredSessionSpec) -> (r: Vec<u8>)
    ensures
        r@ == payload(request_fields(*s)),
{
    let fields = fields_of(s);
    let ghost all = field_views(fields@);
    let mut out: Vec<u8> = Vec::new();
    let mut i: usize = 0;
    assert(all.skip(0) =~= all);
    assert(out@ + payload(all) =~= payload(all));
    while i < fields.len()
        invariant
            i <= fields@.len(),
            all == field_views(fields@),
            out@ + payload(all.skip(i as int)) == payload(all),
        decreases fields@.len() - i,
    {
        let ghost before = out@;
        let ghost rest = all.skip(i as int);
        assert(rest[0] == all[i as int]);
        assert(rest.skip(1) =~= all.skip(i + 1));
        put_field(&mut out, fields[i].0.as_str(), &fields[i].1);
        proof {
            let one = field_bytes(rest[0].0, rest[0].1);
            assert(before + (one + payload(rest.skip(1))) =~= (before + one) + payload(rest.skip(1)));
        }
        i = i + 1;
    }
    assert(all.skip(i as int) =~= Seq::<(Seq<char>, Seq<u8>)>::empty());
    assert(out@ + payload(all.skip(i as int)) =~= out@);
    out
}

/// The SHA-256 digest of bytes.
pub uninterp spec fn sha256_digest(data: Seq<u8>) -> Seq<u8>;

/// Calls `sha2::Sha256::digest`: the SHA-256 digest of the bytes, 32 bytes long. Which bytes they
/// are is left to the name `sha256_digest`.
#[verifier::external_body]
fn sha256(data: &Vec<u8>) -> (r: Vec<u8>)
    ensures
        r@ == sha256_digest(data@),
        r@.len() == 32,
{
    <sha2::Sha256 as sha2::Digest>::digest(data).to_vec()
}

/// The hexadecimal digit of a number below sixteen.
pub open spec fn hex_digit(n: int) -> char {
    if n < 10 {
        (48 + n) as u8 as char
    } else {
        (87 + n) as u8 as char
    }
}

/// Bytes in hexadecimal, two digits each.
pub open spec fn hex(s: Seq<u8>) -> Seq<char>
    decreases s.len(),
{
    if s.len() == 0 {
        Seq::empty()
    } else {
        hex(s.drop_last()).push(hex_digit(s.last() as int / 16)).push(hex_digit(s.last() as int % 16))
    }
}

fn digit_of(n: u8) -> (r: char)
    requires
        n < 16,
    ensures
        r == hex_digit(n as int),
{
    if n < 10 {
        (48 + n) as char
    } else {
        (87 + n) as char
    }
}

/// Writes bytes in hexadecimal.
pub fn to_hex(v: &Vec<u8>) -> (r: String)
    ensures
        r@ == hex(v@),
{
    let mut out = String::new();
    let mut i: usize = 0;
    assert(out@ =~= hex(v@.take(0)));
    while i < v.len()
        invariant
            i <= v@.len(),
            out@ == hex(v@.take(i as int)),
        decreases v@.len() - i,
    {
        assert(v@.take(i + 1).drop_last() =~= v@.take(i as int));
        assert(v@.take(i + 1).last() == v@[i as int]);
        out.push(digit_of(v[i] / 16));
        out.push(digit_of(v[i] % 16));
        i = i + 1;
    }
    assert(v@.take(i as int) =~= v@);
    out
}

/// The hash of a request.
pub open spec fn request_hash(s: StructuredSessionSpec) -> Seq<char> {
    hex(sha256_digest(payload(request_fields(s))))
}

/// Whether a character is a hexadecimal digit without capitals.
pub open spec fn hex_char(c: char) -> bool {
    '0' <= c <= '9' || 'a' <= c <= 'f'
}

/// Bytes in hexadecimal take two characters each, and every one is a digit without capitals.
pub proof fn law_hex_has_two_digits_a_byte(s: Seq<u8>)
    ensures
        hex(s).len() == 2 * s.len(),
        forall|i: int| 0 <= i < hex(s).len() ==> hex_char(#[trigger] hex(s)[i]),
    decreases s.len(),
{
    if s.len() > 0 {
        law_hex_has_two_digits_a_byte(s.drop_last());
        let front = hex(s.drop_last());
        assert forall|i: int| 0 <= i < hex(s).len() implies hex_char(#[trigger] hex(s)[i]) by {
            if i < front.len() {
                assert(hex(s)[i] == front[i]);
            }
        }
    }
}

/// The hash of a request: the digest of its fields, in hexadecimal.
pub fn spec_payload_hash(s: &StructuredSessionSpec) -> (r: String)
    ensures
        r@ == request_hash(*s),
        r@.len() == 64,
        forall|i: int| 0 <= i < 64 ==> hex_char(#[trigger] r@[i]),
{
    let digest = sha256(&payload_bytes(s));
    proof {
        law_hex_has_two_digits_a_byte(digest@);
    }
    to_hex(&digest)
}

/// Whether two requests agree in everything but whether hooks are trusted, the plugin that asks
/// and the key that it asks under.
pub open spec fn same_request(a: StructuredSessionSpec, b: StructuredSessionSpec) -> bool {
    &&& text_of(a.title) == text_of(b.title)
    &&& a.path@ == b.path@
    &&& a.group@ == b.group@
    &&& a.tool@ == b.tool@
    &&& a.worktree_enabled == b.worktree_enabled
    &&& text_of(a.worktree_branch) == text_of(b.worktree_branch)
    &&& a.create_new_branch == b.create_new_branch
    &&& text_of(a.base_branch) == text_of(b.base_branch)
    &&& a.sandbox == b.sandbox
    &&& text_of(a.sandbox_image) == text_of(b.sandbox_image)
    &&& a.yolo_mode == b.yolo_mode
    &&& texts(a.extra_env@) == texts(b.extra_env@)
    &&& a.extra_args@ == b.extra_args@
    &&& a.command_override@ == b.command_override@
    &&& texts(a.extra_repo_paths@) == texts(b.extra_repo_paths@)
    &&& a.scratch == b.scratch
    &&& text_of(a.custom_instruction) == text_of(b.custom_instruction)
    &&& a.profile@ == b.profile@
    &&& text_of(a.pending_initial_turn) == text_of(b.pending_initial_turn)
    &&& text_of(a.acp_mode_id) == text_of(b.acp_mode_id)
    &&& a.view == b.view
    &&& text_of(a.agent_name) == text_of(b.agent_name)
    &&& text_of(a.agent_model) == text_of(b.agent_model)
    &&& text_of(a.agent_effort) == text_of(b.agent_effort)
    &&& text_of(a.import_acp_session_id) == text_of(b.import_acp_session_id)
    &&& a.fork_seed == b.fork_seed
}

/// Requests that differ at most in whether hooks are trusted, in the plugin that asks and in the
/// key that it asks under have the same hash.
pub proof fn law_hash_is_of_the_request(a: StructuredSessionSpec, b: StructuredSessionSpec)
    requires
        same_request(a, b),
    ensures
        request_hash(a) == request_hash(b),
{
    assert(request_fields(a) =~= request_fields(b));
}

/// Whether the number of bytes can be written as a 64-bit number.
pub open spec fn measurable(s: Seq<u8>) -> bool {
    s.len() <= u64::MAX
}

proof fn lemma_measured_split(v: Seq<u8>, w: Seq<u8>, a: Seq<u8>, b: Seq<u8>)
    requires
        measured(v) + a == measured(w) + b,
        measurable(v),
        measurable(w),
    ensures
        v == w,
        a == b,
{
    lemma_auto_spec_u64_to_from_le_bytes();
    let lv = spec_u64_to_le_bytes(v.len() as u64);
    let lw = spec_u64_to_le_bytes(w.len() as u64);
    let all = measured(v) + a;
    let other = measured(w) + b;
    assert(lv.len() == 8 && lw.len() == 8);
    assert(all.take(8) =~= lv);
    assert(other.take(8) =~= lw);
    assert(spec_u64_from_le_bytes(lv) == v.len() as u64);
    assert(v.len() == w.len());
    let m = (8 + v.len()) as int;
    assert(all.subrange(8, m) =~= v);
    assert(other.subrange(8, m) =~= w);
    assert(all.skip(m) =~= a);
    assert(other.skip(m) =~= b);
}

proof fn lemma_field_split(name: Seq<char>, v: Seq<u8>, w: Seq<u8>, a: Seq<u8>, b: Seq<u8>)
    requires
        field_bytes(name, v) + a == field_bytes(name, w) + b,
        measurable(v),
        measurable(w),
    ensures
        v == w,
        a == b,
{
    let head = encode_utf8(name) + seq![0x1fu8];
    let all = field_bytes(name, v) + a;
    let other = field_bytes(name, w) + b;
    let k = head.len() as int;
    let x = seq![0x1eu8] + a;
    let y = seq![0x1eu8] + b;
    assert(all.skip(k) =~= measured(v) + x);
    assert(other.skip(k) =~= measured(w) + y);
    lemma_measured_split(v, w, x, y);
    assert(x.skip(1) =~= a);
    assert(y.skip(1) =~= b);
}

/// Two lists of fields under the same names that give the same bytes have the same values: no
/// part of one value can pass for part of the next.
pub proof fn law_payload_is_injective(a: Seq<(Seq<char>, Seq<u8>)>, b: Seq<(Seq<char>, Seq<u8>)>)
    requires
        a.len() == b.len(),
        forall|i: int| 0 <= i < a.len() ==> (#[trigger] a[i]).0 == b[i].0 && measurable(a[i].1) && measurable(b[i].1),
        payload(a) == payload(b),
    ensures
        a == b,
    decreases a.len(),
{
    if a.len() > 0 {
        assert(a[0].0 == b[0].0);
        lemma_field_split(a[0].0, a[0].1, b[0].1, payload(a.skip(1)), payload(b.skip(1)));
        assert forall|i: int| 0 <= i < a.skip(1).len() implies (#[trigger] a.skip(1)[i]).0 == b.skip(1)[i].0
            && measurable(a.skip(1)[i].1) && measurable(b.skip(1)[i].1) by {
            assert(a.skip(1)[i] == a[i + 1] && b.skip(1)[i] == b[i + 1]);
        }
        law_payload_is_injective(a.skip(1), b.skip(1));
        assert forall|i: int| 0 <= i < a.len() implies a[i] == b[i] by {
            if i > 0 {
                assert(a[i] == a.skip(1)[i - 1] && b[i] == b.skip(1)[i - 1]);
            }
        }
    }
    assert(a =~= b);
}

proof fn lemma_entries_split(a: Seq<Seq<char>>, b: Seq<Seq<char>>)
    requires
        a.len() == b.len(),
        entry_bytes(a) == entry_bytes(b),
        measurable(entry_bytes(a)),
    ensures
        a == b,
    decreases a.len(),
{
    if a.len() > 0 {
        let x = encode_utf8(a[0]);
        let y = encode_utf8(b[0]);
        lemma_auto_spec_u64_to_from_le_bytes();
        lemma_measured_split(x, y, entry_bytes(a.skip(1)), entry_bytes(b.skip(1)));
        encode_utf8_decode_utf8(a[0]);
        encode_utf8_decode_utf8(b[0]);
        lemma_entries_split(a.skip(1), b.skip(1));
        assert forall|i: int| 0 <= i < a.len() implies a[i] == b[i] by {
            if i > 0 {
                assert(a[i] == a.skip(1)[i - 1] && b[i] == b.skip(1)[i - 1]);
            }
        }
    }
    assert(a =~= b);
}

proof fn lemma_count_is_bounded(a: Seq<Seq<char>>)
    ensures
        a.len() <= entry_bytes(a).len(),
    decreases a.len(),
{
    if a.len() > 0 {
        lemma_auto_spec_u64_to_from_le_bytes();
        lemma_count_is_bounded(a.skip(1));
        assert(spec_u64_to_le_bytes(encode_utf8(a[0]).len() as u64).len() == 8);
    }
}

/// No text begins with the byte that marks a list.
proof fn lemma_text_is_unmarked(t: Seq<char>)
    ensures
        encode_utf8(t).len() > 0 ==> encode_utf8(t)[0] != 0xff,
{
    encode_utf8_valid_utf8(t);
}

/// A list that can be told from what its texts are joined to is the only such list joined to it.
proof fn lemma_joined_apart(a: Seq<Seq<char>>, b: Seq<Seq<char>>)
    requires
        joinable(a),
        joinable(b),
        joined(a, "\u{1f}"@) == joined(b, "\u{1f}"@),
    ensures
        a == b,
{
    reveal_strlit("\u{1f}");
    assert("\u{1f}"@ =~= seq!['\u{1f}']);
    if a.len() > 0 && b.len() > 0 {
        lemma_split_joined(a, '\u{1f}');
        lemma_split_joined(b, '\u{1f}');
    }
    assert(a.len() == 0 && b.len() == 0 ==> a =~= b);
}

/// Two lists that are written alike are the same list, whatever their texts hold, provided that
/// the bytes written can be counted in 64 bits.
pub proof fn law_lists_do_not_collide(a: Seq<Seq<char>>, b: Seq<Seq<char>>)
    requires
        list_bytes(a) == list_bytes(b),
        measurable(list_bytes(a)),
    ensures
        a == b,
{
    let x = joined(a, "\u{1f}"@);
    let y = joined(b, "\u{1f}"@);
    lemma_text_is_unmarked(x);
    lemma_text_is_unmarked(y);
    if joinable(a) && joinable(b) {
        lemma_texts_do_not_collide(x, y);
        lemma_joined_apart(a, b);
    } else {
        assert(!joinable(a) ==> list_bytes(a)[0] == 0xff);
        assert(!joinable(b) ==> list_bytes(b)[0] == 0xff);
        lemma_auto_spec_u64_to_from_le_bytes();
        let la = spec_u64_to_le_bytes(a.len() as u64);
        let lb = spec_u64_to_le_bytes(b.len() as u64);
        assert(la.len() == 8 && lb.len() == 8);
        assert(list_bytes(a).subrange(1, 9) =~= la);
        assert(list_bytes(b).subrange(1, 9) =~= lb);
        assert(list_bytes(a).skip(9) =~= entry_bytes(a));
        assert(list_bytes(b).skip(9) =~= entry_bytes(b));
        lemma_count_is_bounded(a);
        lemma_count_is_bounded(b);
        assert(spec_u64_from_le_bytes(la) == a.len() as u64);
        assert(spec_u64_from_le_bytes(lb) == b.len() as u64);
        lemma_entries_split(a, b);
    }
}

proof fn lemma_texts_do_not_collide(a: Seq<char>, b: Seq<char>)
    requires
        encode_utf8(a) == encode_utf8(b),
    ensures
        a == b,
{
    encode_utf8_decode_utf8(a);
    encode_utf8_decode_utf8(b);
}

proof fn lemma_truths_differ()
    ensures
        "true"@ != "false"@,
        "Terminal"@ != "Structured"@,
{
    reveal_strlit("true");
    reveal_strlit("false");
    reveal_strlit("Terminal");
    reveal_strlit("Structured");
    assert("true"@.len() == 4 && "false"@.len() == 5);
    assert("Terminal"@.len() == 8 && "Structured"@.len() == 10);
}

/// Whether two requests agree in every field by which a request is recognized. A text that is
/// missing and an empty one count as the same.
pub open spec fn alike(a: StructuredSessionSpec, b: StructuredSessionSpec) -> bool {
    &&& or_blank(a.title) == or_blank(b.title)
    &&& a.path@ == b.path@
    &&& a.group@ == b.group@
    &&& a.tool@ == b.tool@
    &&& a.worktree_enabled == b.worktree_enabled
    &&& or_blank(a.worktree_branch) == or_blank(b.worktree_branch)
    &&& a.create_new_branch == b.create_new_branch
    &&& or_blank(a.base_branch) == or_blank(b.base_branch)
    &&& a.sandbox == b.sandbox
    &&& or_blank(a.sandbox_image) == or_blank(b.sandbox_image)
    &&& a.yolo_mode == b.yolo_mode
    &&& texts(a.extra_env@) == texts(b.extra_env@)
    &&& a.extra_args@ == b.extra_args@
    &&& a.command_override@ == b.command_override@
    &&& texts(a.extra_repo_paths@) == texts(b.extra_repo_paths@)
    &&& a.scratch == b.scratch
    &&& or_blank(a.custom_instruction) == or_blank(b.custom_instruction)
    &&& a.profile@ == b.profile@
    &&& or_blank(a.pending_initial_turn) == or_blank(b.pending_initial_turn)
    &&& or_blank(a.acp_mode_id) == or_blank(b.acp_mode_id)
    &&& a.view == b.view
    &&& or_blank(a.agent_name) == or_blank(b.agent_name)
    &&& or_blank(a.agent_model) == or_blank(b.agent_model)
    &&& or_blank(a.agent_effort) == or_blank(b.agent_effort)
    &&& or_blank(a.import_acp_session_id) == or_blank(b.import_acp_session_id)
}

proof fn lemma_fields_alike(a: StructuredSessionSpec, b: StructuredSessionSpec)
    requires
        request_fields(a) == request_fields(b),
        forall|i: int| 0 <= i < request_fields(a).len() ==> measurable((#[trigger] request_fields(a)[i]).1),
    ensures
        alike(a, b),
{
    lemma_truths_differ();
    let x = request_fields(a);
    let y = request_fields(b);
    assert(x[1].1 == encode_utf8(or_blank(a.title)) && y[1].1 == encode_utf8(or_blank(b.title)));
    lemma_texts_do_not_collide(or_blank(a.title), or_blank(b.title));
    assert(x[2].1 == encode_utf8(a.path@) && y[2].1 == encode_utf8(b.path@));
    lemma_texts_do_not_collide(a.path@, b.path@);
    assert(x[3].1 == encode_utf8(a.group@) && y[3].1 == encode_utf8(b.group@));
    lemma_texts_do_not_collide(a.group@, b.group@);
    assert(x[4].1 == encode_utf8(a.tool@) && y[4].1 == encode_utf8(b.tool@));
    lemma_texts_do_not_collide(a.tool@, b.tool@);
    assert(x[5].1 == encode_utf8(truth(a.worktree_enabled)) && y[5].1 == encode_utf8(truth(b.worktree_enabled)));
    lemma_texts_do_not_collide(truth(a.worktree_enabled), truth(b.worktree_enabled));
    assert(x[6].1 == encode_utf8(or_blank(a.worktree_branch)) && y[6].1 == encode_utf8(or_blank(b.worktree_branch)));
    lemma_texts_do_not_collide(or_blank(a.worktree_branch), or_blank(b.worktree_branch));
    assert(x[7].1 == encode_utf8(truth(a.create_new_branch)) && y[7].1 == encode_utf8(truth(b.create_new_branch)));
    lemma_texts_do_not_collide(truth(a.create_new_branch), truth(b.create_new_branch));
    assert(x[8].1 == encode_utf8(or_blank(a.base_branch)) && y[8].1 == encode_utf8(or_blank(b.base_branch)));
    lemma_texts_do_not_collide(or_blank(a.base_branch), or_blank(b.base_branch));
    assert(x[9].1 == encode_utf8(truth(a.sandbox)) && y[9].1 == encode_utf8(truth(b.sandbox)));
    lemma_texts_do_not_collide(truth(a.sandbox), truth(b.sandbox));
    assert(x[10].1 == encode_utf8(or_blank(a.sandbox_image)) && y[10].1 == encode_utf8(or_blank(b.sandbox_image)));
    lemma_texts_do_not_collide(or_blank(a.sandbox_image), or_blank(b.sandbox_image));
    assert(x[11].1 == encode_utf8(truth(a.yolo_mode)) && y[11].1 == encode_utf8(truth(b.yolo_mode)));
    lemma_texts_do_not_collide(truth(a.yolo_mode), truth(b.yolo_mode));
    assert(x[12].1 == list_bytes(texts(a.extra_env@)) && y[12].1 == list_bytes(texts(b.extra_env@)));
    law_lists_do_not_collide(texts(a.extra_env@), texts(b.extra_env@));
    assert(x[13].1 == encode_utf8(a.extra_args@) && y[13].1 == encode_utf8(b.extra_args@));
    lemma_texts_do_not_collide(a.extra_args@, b.extra_args@);
    assert(x[14].1 == encode_utf8(a.command_override@) && y[14].1 == encode_utf8(b.command_override@));
    lemma_texts_do_not_collide(a.command_override@, b.command_override@);
    assert(x[15].1 == list_bytes(texts(a.extra_repo_paths@)) && y[15].1 == list_bytes(texts(b.extra_repo_paths@)));
    law_lists_do_not_collide(texts(a.extra_repo_paths@), texts(b.extra_repo_paths@));
    assert(x[16].1 == encode_utf8(truth(a.scratch)) && y[16].1 == encode_utf8(truth(b.scratch)));
    lemma_texts_do_not_collide(truth(a.scratch), truth(b.scratch));
    assert(x[17].1 == encode_utf8(or_blank(a.custom_instruction)) && y[17].1 == encode_utf8(or_blank(b.custom_instruction)));
    lemma_texts_do_not_collide(or_blank(a.custom_instruction), or_blank(b.custom_instruction));
    assert(x[18].1 == encode_utf8(a.profile@) && y[18].1 == encode_utf8(b.profile@));
    lemma_texts_do_not_collide(a.profile@, b.profile@);
    assert(x[19].1 == encode_utf8(or_blank(a.pending_initial_turn)) && y[19].1 == encode_utf8(or_blank(b.pending_initial_turn)));
    lemma_texts_do_not_collide(or_blank(a.pending_initial_turn), or_blank(b.pending_initial_turn));
    assert(x[20].1 == encode_utf8(or_blank(a.acp_mode_id)) && y[20].1 == encode_utf8(or_blank(b.acp_mode_id)));
    lemma_texts_do_not_collide(or_blank(a.acp_mode_id), or_blank(b.acp_mode_id));
    assert(x[21].1 == encode_utf8(view_name(a.view)) && y[21].1 == encode_utf8(view_name(b.view)));
    lemma_texts_do_not_collide(view_name(a.view), view_name(b.view));
    assert(x[22].1 == encode_utf8(or_blank(a.agent_name)) && y[22].1 == encode_utf8(or_blank(b.agent_name)));
    lemma_texts_do_not_collide(or_blank(a.agent_name), or_blank(b.agent_name));
    assert(x[23].1 == encode_utf8(or_blank(a.agent_model)) && y[23].1 == encode_utf8(or_blank(b.agent_model)));
    lemma_texts_do_not_collide(or_blank(a.agent_model), or_blank(b.agent_model));
    assert(x[24].1 == encode_utf8(or_blank(a.agent_effort)) && y[24].1 == encode_utf8(or_blank(b.agent_effort)));
    lemma_texts_do_not_collide(or_blank(a.agent_effort), or_blank(b.agent_effort));
    assert(x[25].1 == encode_utf8(or_blank(a.import_acp_session_id)) && y[25].1 == encode_utf8(or_blank(b.import_acp_session_id)));
    lemma_texts_do_not_collide(or_blank(a.import_acp_session_id), or_blank(b.import_acp_session_id));
}

/// Two requests give the same bytes exactly when they agree in every field by which a request is
/// recognized, provided that the bytes of each field can be counted in 64 bits.
pub proof fn law_requests_do_not_collide(a: StructuredSessionSpec, b: StructuredSessionSpec)
    requires
        forall|i: int| 0 <= i < request_fields(a).len() ==> measurable((#[trigger] request_fields(a)[i]).1),
        forall|i: int| 0 <= i < request_fields(b).len() ==> measurable((#[trigger] request_fields(b)[i]).1),
    ensures
        payload(request_fields(a)) == payload(request_fields(b)) <==> alike(a, b),
{
    let x = request_fields(a);
    let y = request_fields(b);
    if alike(a, b) {
        assert(x =~= y);
    }
    if payload(x) == payload(y) {
        assert forall|i: int| 0 <= i < x.len() implies (#[trigger] x[i]).0 == y[i].0 && measurable(x[i].1)
            && measurable(y[i].1) by {
            assert(measurable(y[i].1));
        }
        law_payload_is_injective(x, y);
        lemma_fields_alike(a, b);
    }
}

} // verus!
