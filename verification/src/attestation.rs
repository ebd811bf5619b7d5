//! How a peer proves which build it is.

use crate::crypto::primitives;
use crate::json;
use crate::outside;
use crate::text;
use vstd::prelude::*;

verus! {

/// Whether a setting says that a peer does not prove its build.
pub open spec fn skips(setting: Option<Seq<char>>) -> bool {
    match setting {
        Some(s) => s == "1"@ || text::ascii_lower(s) == text::ascii_lower("true"@),
        None => false,
    }
}

/// Whether a setting says that a peer does not prove its build.
pub fn attestation_skip_enabled(setting: Option<&str>) -> (r: bool)
    ensures
        r == skips(json::opt_str(setting)),
{
    match setting {
        Some(s) => text::str_eq(s, "1") || text::eq_ignore_ascii_case(s, "true"),
        None => false,
    }
}

/// Whether the build holds a key to prove itself with.
pub fn attestation_key_embedded(secret: &str) -> (r: bool)
    ensures
        r == (text::trimmed(secret@).len() > 0),
{
    !text::trim(secret).as_str().is_empty()
}

/// The id of a build: the one that it was built with, where that is one.
pub fn build_id(embedded: &str) -> (r: String)
    ensures
        r@ == id_of_build(embedded@),
{
    match outside::parse_uuid(embedded) {
        Some(id) => id,
        None => text::copy("00000000-0000-0000-0000-000000000000"),
    }
}

/// The system and the processor that a build is for.
pub fn platform_string(os: &str, arch: &str) -> (r: String)
    ensures
        r@ == os@ + "/"@ + arch@,
{
    text::concat3(os, "/", arch)
}

/// What is told of the proof when a peer starts.
pub fn startup_line(skip: bool, embedded: bool, build_id: &str) -> (r: String)
    ensures
        r@ == " Attestation: skip="@ + yes_no(skip) + " embedded_key="@ + yes_no(embedded)
            + " build_id="@ + build_id@,
{
    let a = text::concat3(" Attestation: skip=", bool_text(skip), " embedded_key=");
    let b = text::concat3(&a, bool_text(embedded), " build_id=");
    let r = text::concat2(&b, build_id);
    assert(r@ =~= " Attestation: skip="@ + yes_no(skip) + " embedded_key="@ + yes_no(embedded)
        + " build_id="@ + build_id@);
    r
}

/// What a user is told of the proof when a peer starts.
pub open spec fn noted(skip: bool, embedded: bool, build_id: Seq<char>) -> Seq<char> {
    if skip {
        " ⚠️ MTRXAI_ATTESTATION_SKIP=1 — registration will fail if the lobby requires attestation"@
    } else if embedded {
        " ℹ️ If registration fails with 'build_id not on allowlist', run:\n    MTRXAI_ADMIN_KEY=... MTRXAI_LOBBY_URL=https://<your-lobby-admin> scripts/register-allowed-build.sh release/docker/allowed_build.json\n    (build_id="@
            + build_id + ")"@
    } else {
        " ⚠️ This binary cannot attest — use an official release build (e.g. docker.io/cosmicentropy/mtrxai-client:<version>)"@
    }
}

/// What a user is told of the proof when a peer starts.
pub fn startup_note(skip: bool, embedded: bool, build_id: &str) -> (r: String)
    ensures
        r@ == noted(skip, embedded, build_id@),
{
    if skip {
        text::copy(
            " ⚠️ MTRXAI_ATTESTATION_SKIP=1 — registration will fail if the lobby requires attestation",
        )
    } else if embedded {
        text::concat3(
            " ℹ️ If registration fails with 'build_id not on allowlist', run:\n    MTRXAI_ADMIN_KEY=... MTRXAI_LOBBY_URL=https://<your-lobby-admin> scripts/register-allowed-build.sh release/docker/allowed_build.json\n    (build_id=",
            build_id,
            ")",
        )
    } else {
        text::copy(
            " ⚠️ This binary cannot attest — use an official release build (e.g. docker.io/cosmicentropy/mtrxai-client:<version>)",
        )
    }
}

/// A truth value in words.
pub open spec fn yes_no(b: bool) -> Seq<char> {
    if b {
        "true"@
    } else {
        "false"@
    }
}

fn bool_text(b: bool) -> (r: &'static str)
    ensures
        r@ == yes_no(b),
{
    if b {
        "true"
    } else {
        "false"
    }
}

/// What a peer does to prove its build.
#[derive(Debug, PartialEq)]
pub enum AttestationStep {
    /// It registers without proof.
    Skip,
    /// It cannot, and says why.
    Refuse(String),
    /// It asks the lobby for a challenge.
    AskChallenge,
}

/// What a peer does to prove its build.
pub fn attestation_step(setting: Option<&str>, secret: &str) -> (r: AttestationStep)
    ensures
        match r {
            AttestationStep::Skip => skips(json::opt_str(setting)),
            AttestationStep::Refuse(m) => !skips(json::opt_str(setting)) && text::trimmed(
                secret@,
            ).len() == 0 && m@
                == "this client build has no embedded attestation key; use an official attested release image or set MTRXAI_ATTESTATION_SKIP=1 only when the lobby also skips attestation"@,
            AttestationStep::AskChallenge => !skips(json::opt_str(setting)) && text::trimmed(
                secret@,
            ).len() > 0,
        },
{
    if attestation_skip_enabled(setting) {
        return AttestationStep::Skip;
    }
    if !attestation_key_embedded(secret) {
        return AttestationStep::Refuse(
            text::copy(
                "this client build has no embedded attestation key; use an official attested release image or set MTRXAI_ATTESTATION_SKIP=1 only when the lobby also skips attestation",
            ),
        );
    }
    AttestationStep::AskChallenge
}

/// The file whose bytes are proven on Android.
pub const LIB_NAME: &'static str = "libmtrxai_tauri.so";

/// The last word of a line.
pub open spec fn last_word(s: Seq<char>) -> Option<Seq<char>> {
    let t = text::trimmed(s);
    if t.len() == 0 {
        None
    } else {
        Some(t.skip(t.len() - last_word_len(t)))
    }
}

/// How many characters at the end of `s` are no white space.
pub open spec fn last_word_len(s: Seq<char>) -> int
    decreases s.len(),
{
    if s.len() == 0 || text::is_space(s.last()) {
        0
    } else {
        1 + last_word_len(s.drop_last())
    }
}

/// The path on a line of the map of a process, where it may be that of the file
/// whose bytes are proven.
pub open spec fn mapped_path(line: Seq<char>) -> Option<Seq<char>> {
    if !text::has(line, LIB_NAME@) {
        None
    } else {
        match last_word(line) {
            Some(p) => if p.len() > 0 && p[0] == '/' && !p.contains('!') {
                Some(p)
            } else {
                None
            },
            None => None,
        }
    }
}

/// The paths on the lines of the map of a process.
pub open spec fn mapped_paths(lines: Seq<Seq<char>>) -> Seq<Seq<char>>
    decreases lines.len(),
{
    if lines.len() == 0 {
        Seq::empty()
    } else {
        let before = mapped_paths(lines.drop_last());
        match mapped_path(lines.last()) {
            Some(p) => before.push(p),
            None => before,
        }
    }
}

fn last_word_of(s: &str) -> (r: Option<String>)
    ensures
        text::opt_view(r) == last_word(s@),
{
    let t = text::trim(s);
    let cs = text::chars_of(&t);
    if cs.len() == 0 {
        return None;
    }
    let mut i: usize = cs.len();
    assert(t@.take(i as int) =~= t@);
    while i > 0 && !text::char_is_space(cs[i - 1])
        invariant
            cs@ == t@,
            i <= cs@.len(),
            last_word_len(t@) == cs@.len() - i + last_word_len(t@.take(i as int)),
        decreases i,
    {
        assert(t@.take(i as int).drop_last() =~= t@.take(i - 1));
        assert(t@.take(i as int).last() == cs@[i - 1]);
        i -= 1;
    }
    assert(last_word_len(t@) == cs@.len() - i) by {
        if i > 0 {
            assert(t@.take(i as int).last() == cs@[i - 1]);
        }
    }
    Some(text::skip(&t, i))
}

fn path_on(line: &str) -> (r: Option<String>)
    ensures
        text::opt_view(r) == mapped_path(line@),
{
    if !text::contains(line, LIB_NAME) {
        return None;
    }
    match last_word_of(line) {
        Some(p) => {
            let cs = text::chars_of(&p);
            proof {
                text::lemma_char_index(p@, '!');
            }
            if cs.len() > 0 && cs[0] == '/' && text::find_char(&p, '!').is_none() {
                Some(p)
            } else {
                None
            }
        },
        None => None,
    }
}

/// The paths in the map of a process that may be that of the file whose bytes are
/// proven on Android.
pub fn library_candidates(maps: &str) -> (r: Vec<String>)
    ensures
        text::views(r@) == mapped_paths(text::lines_of(maps@)),
{
    let lines = text::lines(maps);
    let ghost lv = text::lines_of(maps@);
    let mut out: Vec<String> = Vec::new();
    assert(text::views(out@) =~= mapped_paths(lv.take(0)));
    for i in 0..lines.len()
        invariant
            text::views(lines@) == lv,
            text::views(out@) == mapped_paths(lv.take(i as int)),
    {
        proof {
            assert(lv.take(i as int + 1).drop_last() =~= lv.take(i as int));
            assert(lv.take(i as int + 1).last() == lines@[i as int]@);
        }
        if let Some(p) = path_on(&lines[i]) {
            proof {
                text::lemma_views_push(out@, p);
            }
            out.push(p);
        }
    }
    assert(lv.take(lv.len() as int) =~= lv);
    out
}

/// Why the file at `path` is not the one whose bytes are proven on Android;
/// nothing, where it is.
pub fn library_fault(path: &str, is_file: bool, file_name: Option<&str>) -> (r: Option<String>)
    ensures
        text::opt_view(r) == if !is_file || path@.contains('!') {
            Some(
                "attestation lib path is not a regular file ("@ + path@
                    + "); enable jniLibs.useLegacyPackaging"@,
            )
        } else if json::opt_str(file_name) != Some(LIB_NAME@) {
            Some(
                "dladdr returned "@ + path@ + " (expected "@ + LIB_NAME@
                    + "); enable jniLibs.useLegacyPackaging"@,
            )
        } else {
            None
        },
{
    proof {
        text::lemma_char_index(path@, '!');
    }
    if !is_file || text::find_char(path, '!').is_some() {
        return Some(
            text::concat3(
                "attestation lib path is not a regular file (",
                path,
                "); enable jniLibs.useLegacyPackaging",
            ),
        );
    }
    let right = match file_name {
        Some(n) => text::str_eq(n, LIB_NAME),
        None => false,
    };
    if !right {
        let front = text::concat3("dladdr returned ", path, " (expected ");
        return Some(
            text::concat3(&front, LIB_NAME, "); enable jniLibs.useLegacyPackaging"),
        );
    }
    None
}

/// What the lobby asks a peer to prove its build by.
#[derive(Debug, PartialEq)]
pub struct AttestationChallenge {
    pub challenge_id: String,
    pub nonce: String,
    pub expires_at: i64,
}

/// What a build knows of itself: the id that it was built with, its version, the
/// commit that it was built from, and the system and the processor that it is for.
#[derive(Debug, PartialEq)]
pub struct BuildFacts {
    pub embedded_id: String,
    pub version: String,
    pub git_sha: String,
    pub os: String,
    pub arch: String,
}

/// What a peer claims of its build.
#[derive(Debug, PartialEq)]
pub struct AttestationClaims {
    pub challenge_id: String,
    pub nonce: String,
    pub binary_sha256: String,
    pub build_id: String,
    pub version: String,
    pub git_sha: String,
    pub platform: String,
    pub issued_at: i64,
}

/// What a peer claims of its build, with a signature.
#[derive(Debug, PartialEq)]
pub struct AttestationProof {
    pub challenge_id: String,
    pub nonce: String,
    pub binary_sha256: String,
    pub build_id: String,
    pub version: String,
    pub git_sha: String,
    pub platform: String,
    pub issued_at: i64,
    pub signature: String,
}

/// The id of a build that was built with the id `embedded`.
pub open spec fn id_of_build(embedded: Seq<char>) -> Seq<char> {
    match outside::uuid_of(embedded) {
        Some(id) => id,
        None => "00000000-0000-0000-0000-000000000000"@,
    }
}

/// Whether `c` claims, at the moment `now`, that the build `facts` with the digest
/// `digest` answers `challenge`.
pub open spec fn claims_for(
    c: AttestationClaims,
    challenge: AttestationChallenge,
    digest: Seq<char>,
    facts: BuildFacts,
    now: i64,
) -> bool {
    &&& c.challenge_id@ == challenge.challenge_id@
    &&& c.nonce@ == challenge.nonce@
    &&& c.binary_sha256@ == digest
    &&& c.build_id@ == id_of_build(facts.embedded_id@)
    &&& c.version@ == facts.version@
    &&& c.git_sha@ == facts.git_sha@
    &&& c.platform@ == facts.os@ + "/"@ + facts.arch@
    &&& c.issued_at == now
}

/// What a build that holds the key `secret` claims at the moment `now`. `key_fault`
/// says why the key cannot be read, and `digest` is that of the program, or why there
/// is none. A build without a key claims nothing.
pub fn build_claims(
    secret: &str,
    key_fault: Option<&str>,
    challenge: &AttestationChallenge,
    digest: Result<String, String>,
    facts: &BuildFacts,
    now: i64,
) -> (r: Result<AttestationClaims, String>)
    ensures
        if text::trimmed(secret@).len() == 0 {
            r matches Err(m) && m@
                == "MTRXAI_ATTESTATION_SECRET not embedded; set MTRXAI_ATTESTATION_SKIP=1 for local dev"@
        } else {
            match (key_fault, digest) {
                (Some(e), _) => r matches Err(m) && m@ == "invalid embedded attestation key: "@
                    + e@,
                (None, Err(e)) => r matches Err(m) && m@ == e@,
                (None, Ok(d)) => r matches Ok(c) && claims_for(c, *challenge, d@, *facts, now),
            }
        },
{
    if !attestation_key_embedded(secret) {
        return Err(
            text::copy(
                "MTRXAI_ATTESTATION_SECRET not embedded; set MTRXAI_ATTESTATION_SKIP=1 for local dev",
            ),
        );
    }
    if let Some(e) = key_fault {
        return Err(text::concat2("invalid embedded attestation key: ", e));
    }
    match digest {
        Ok(binary_sha256) => Ok(
            AttestationClaims {
                challenge_id: text::copy(&challenge.challenge_id),
                nonce: text::copy(&challenge.nonce),
                binary_sha256,
                build_id: build_id(&facts.embedded_id),
                version: text::copy(&facts.version),
                git_sha: text::copy(&facts.git_sha),
                platform: platform_string(&facts.os, &facts.arch),
                issued_at: now,
            },
        ),
        Err(e) => Err(e),
    }
}

/// Whether `p` is the claims `c` with the signature `signature`.
pub open spec fn is_proof(p: AttestationProof, c: AttestationClaims, signature: String) -> bool {
    p == (AttestationProof {
        challenge_id: c.challenge_id,
        nonce: c.nonce,
        binary_sha256: c.binary_sha256,
        build_id: c.build_id,
        version: c.version,
        git_sha: c.git_sha,
        platform: c.platform,
        issued_at: c.issued_at,
        signature,
    })
}

/// The proof that the claims `claims` and their signature make, or why there is
/// none.
pub fn build_proof(
    claims: Result<AttestationClaims, String>,
    signature: Result<String, String>,
) -> (r: Result<AttestationProof, String>)
    ensures
        match (claims, signature) {
            (Ok(c), Ok(s)) => r matches Ok(p) && is_proof(p, c, s),
            (Ok(_), Err(e)) => r matches Err(m) && m@ == "failed to sign attestation claims: "@
                + e@,
            (Err(e), _) => r == Err::<AttestationProof, String>(e),
        },
{
    let claims = match claims {
        Ok(c) => c,
        Err(e) => {
            return Err(e);
        },
    };
    match signature {
        Ok(signature) => Ok(
            AttestationProof {
                challenge_id: claims.challenge_id,
                nonce: claims.nonce,
                binary_sha256: claims.binary_sha256,
                build_id: claims.build_id,
                version: claims.version,
                git_sha: claims.git_sha,
                platform: claims.platform,
                issued_at: claims.issued_at,
                signature,
            },
        ),
        Err(e) => Err(text::concat2("failed to sign attestation claims: ", &e)),
    }
}

/// The digest of the bytes of the running program, in hexadecimal.
pub fn hash_current_binary(bytes: &[u8]) -> (r: String)
    ensures
        r@ == primitives::hex_text(primitives::sha256(bytes@)),
{
    let digest: [u8; 32] = primitives::sha256_digest(bytes);
    primitives::hex_encode(&digest)
}

/// The last word of a line is what follows its last white space, but for white space at
/// its end.
pub proof fn law_last_word(a: Seq<char>, w: Seq<char>, b: Seq<char>)
    requires
        w.len() > 0,
        forall|i: int| 0 <= i < w.len() ==> !text::is_space(#[trigger] w[i]),
        text::is_blank(b),
        a.len() == 0 || (text::is_space(a.last()) && !text::is_space(a[0])),
    ensures
        last_word(a + w + b) == Some(w),
{
    let s = a + w;
    assert(s.last() == w[w.len() - 1]);
    assert(a.len() == 0 ==> s[0] == w[0]);
    let none = Seq::<char>::empty();
    text::law_trimming_takes_off_space(none, s, b);
    assert(none + s + b =~= a + w + b);
    lemma_last_word_len(a, w);
    assert(s.skip(a.len() as int) =~= w);
}

proof fn lemma_last_word_len(a: Seq<char>, w: Seq<char>)
    requires
        forall|i: int| 0 <= i < w.len() ==> !text::is_space(#[trigger] w[i]),
        a.len() == 0 || text::is_space(a.last()),
    ensures
        last_word_len(a + w) == w.len(),
    decreases w.len(),
{
    if w.len() == 0 {
        assert(a + w =~= a);
    } else {
        let front = w.drop_last();
        assert((a + w).drop_last() =~= a + front);
        assert((a + w).last() == w[w.len() - 1]);
        assert forall|i: int| 0 <= i < front.len() implies !text::is_space(#[trigger] front[i]) by {
            assert(front[i] == w[i]);
        }
        lemma_last_word_len(a, front);
    }
}

/// A line of the map of a process that ends in the path of the library tells that path.
pub proof fn law_mapped_library_is_found(a: Seq<char>, p: Seq<char>, b: Seq<char>)
    requires
        p.len() > 0,
        p[0] == '/',
        !p.contains('!'),
        forall|i: int| 0 <= i < p.len() ==> !text::is_space(#[trigger] p[i]),
        text::is_blank(b),
        a.len() == 0 || (text::is_space(a.last()) && !text::is_space(a[0])),
    ensures
        text::has(a + p + b, LIB_NAME@) ==> mapped_path(a + p + b) == Some(p),
        !text::has(a + p + b, LIB_NAME@) ==> mapped_path(a + p + b) is None,
{
    law_last_word(a, p, b);
}

/// The paths of a map are those of its lines, in their order.
pub proof fn law_lines_tell_their_paths(lines: Seq<Seq<char>>, line: Seq<char>)
    ensures
        mapped_paths(Seq::<Seq<char>>::empty()).len() == 0,
        mapped_path(line) is None ==> mapped_paths(lines.push(line)) == mapped_paths(lines),
        mapped_path(line) matches Some(p) ==> mapped_paths(lines.push(line)) == mapped_paths(
            lines,
        ).push(p),
{
    assert(lines.push(line).drop_last() =~= lines);
}

/// A proof answers the challenge that it was made for: it names the challenge and its
/// nonce, the program and the build, and the moment it was made.
pub proof fn law_proof_answers_its_challenge(
    p: AttestationProof,
    c: AttestationClaims,
    signature: String,
    challenge: AttestationChallenge,
    digest: Seq<char>,
    facts: BuildFacts,
    now: i64,
)
    requires
        claims_for(c, challenge, digest, facts, now),
        is_proof(p, c, signature),
    ensures
        p.challenge_id@ == challenge.challenge_id@,
        p.nonce@ == challenge.nonce@,
        p.binary_sha256@ == digest,
        p.version@ == facts.version@,
        p.git_sha@ == facts.git_sha@,
        p.issued_at == now,
        p.signature == signature,
        p.platform@.len() == facts.os@.len() + 1 + facts.arch@.len(),
        text::starts(p.platform@, facts.os@),
        text::ends(p.platform@, facts.arch@),
        outside::uuid_of(facts.embedded_id@) matches Some(id) ==> p.build_id@ == id,
{
    reveal_strlit("/");
    let s = p.platform@;
    assert(s =~= facts.os@ + "/"@ + facts.arch@);
    assert(s.subrange(0, facts.os@.len() as int) =~= facts.os@);
    assert(s.subrange(s.len() - facts.arch@.len(), s.len() as int) =~= facts.arch@);
}

/// A peer does not prove its build just where its setting says so, in letters of either
/// case.
pub proof fn law_skipping_is_asked_for(s: Seq<char>)
    requires
        s.len() == 4,
    ensures
        (s[0] == 't' || s[0] == 'T') && (s[1] == 'r' || s[1] == 'R') && (s[2] == 'u' || s[2] == 'U')
            && (s[3] == 'e' || s[3] == 'E') <==> skips(Some(s)),
        skips(Some(seq!['1'])),
        !skips(None),
{
    reveal_strlit("true");
    reveal_strlit("1");
    assert("1"@ =~= seq!['1']);
    let l = text::ascii_lower(s);
    let t = text::ascii_lower("true"@);
    assert(t[0] == 't' && t[1] == 'r' && t[2] == 'u' && t[3] == 'e');
    if skips(Some(s)) {
        assert(s.len() != "1"@.len());
        assert(l[0] == 't' && l[1] == 'r' && l[2] == 'u' && l[3] == 'e');
    } else {
        assert(l.len() == t.len());
        if (s[0] == 't' || s[0] == 'T') && (s[1] == 'r' || s[1] == 'R') && (s[2] == 'u' || s[2]
            == 'U') && (s[3] == 'e' || s[3] == 'E') {
            assert(l =~= t);
        }
    }
}

} // verus!
