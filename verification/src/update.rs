//! Self-update from published releases: which release to install, which artifact to fetch, and
//! whether a download may be installed.

use crate::text;
use sha2::Digest;
use vstd::prelude::*;

verus! {

// ---------------------------------------------------------------------------
// Versions
// ---------------------------------------------------------------------------

/// The version of a tag `vMAJOR.MINOR.PATCH`: three numbers, and nothing else.
pub open spec fn tag_version(t: Seq<char>) -> Option<(nat, nat, nat)> {
    let max = u64::MAX as nat;
    if t.len() == 0 || t[0] != 'v' {
        None
    } else {
        let parts = text::split_on(t.skip(1), '.');
        if parts.len() != 3 || !text::all_digits(parts[0]) || !text::all_digits(parts[1])
            || !text::all_digits(parts[2]) {
            None
        } else {
            match (
                text::parse_nat(parts[0], max),
                text::parse_nat(parts[1], max),
                text::parse_nat(parts[2], max),
            ) {
                (Some(a), Some(b), Some(c)) => Some((a, b, c)),
                _ => None,
            }
        }
    }
}

/// A number without a sign.
fn number(s: &str) -> (r: Option<u64>)
    ensures
        match r {
            Some(n) => text::all_digits(s@) && text::parse_nat(s@, u64::MAX as nat) == Some(
                n as nat,
            ),
            None => !text::all_digits(s@) || text::parse_nat(s@, u64::MAX as nat) is None,
        },
{
    if text::has_prefix(s, "+") {
        proof {
            reveal_strlit("+");
            assert(s@.take(1)[0] == '+');
            assert(!text::is_digit(s@[0]));
        }
        return None;
    }
    proof {
        reveal_strlit("+");
        if s@.len() > 0 && s@[0] == '+' {
            assert(s@.take(1) =~= "+"@);
        }
    }
    text::parse_u64(s, u64::MAX)
}

/// The version of a tag `vMAJOR.MINOR.PATCH`; `None` where it is none.
pub fn parse_tag(t: &str) -> (r: Option<(u64, u64, u64)>)
    ensures
        match r {
            Some(v) => tag_version(t@) == Some((v.0 as nat, v.1 as nat, v.2 as nat)),
            None => tag_version(t@) is None,
        },
{
    proof {
        reveal_strlit("v");
        assert("v"@ =~= seq!['v']);
        if t@.len() > 0 {
            assert(t@.take(1) =~= seq![t@[0]]);
            if text::starts_with(t@, "v"@) {
                assert(t@.take(1)[0] == 'v');
            }
        }
    }
    let rest = match text::strip_prefix(t, "v") {
        Some(rest) => rest,
        None => {
            return None;
        },
    };
    let parts = text::split(rest, '.');
    let ghost ps = text::split_on(t@.skip(1), '.');
    assert(text::views(parts@) == ps);
    if parts.len() != 3 {
        return None;
    }
    assert(ps[0] == parts@[0]@);
    assert(ps[1] == parts@[1]@);
    assert(ps[2] == parts@[2]@);
    let a = number(parts[0].as_str());
    let b = number(parts[1].as_str());
    let c = number(parts[2].as_str());
    match (a, b, c) {
        (Some(a), Some(b), Some(c)) => Some((a, b, c)),
        _ => None,
    }
}

/// Whether one version is newer than another.
pub open spec fn newer_version(a: (nat, nat, nat), b: (nat, nat, nat)) -> bool {
    a.0 > b.0 || (a.0 == b.0 && (a.1 > b.1 || (a.1 == b.1 && a.2 > b.2)))
}

/// Whether a release is to be installed over the running version: only a strictly newer one where
/// both are versions, any other one where either is not.
pub open spec fn wanted(current: Seq<char>, tag: Seq<char>) -> bool {
    match (tag_version(current), tag_version(tag)) {
        (Some(c), Some(n)) => newer_version(n, c),
        _ => tag != current,
    }
}

/// Whether a release is to be installed over the running version.
pub fn is_wanted(current: &str, tag: &str) -> (r: bool)
    ensures
        r == wanted(current@, tag@),
{
    match (parse_tag(current), parse_tag(tag)) {
        (Some(c), Some(n)) => n.0 > c.0 || (n.0 == c.0 && (n.1 > c.1 || (n.1 == c.1 && n.2 > c.2))),
        _ => !text::str_eq(tag, current),
    }
}

/// An update never goes back: a release that is installed over a version is newer than it.
pub proof fn law_never_downgrades(current: Seq<char>, tag: Seq<char>)
    requires
        wanted(current, tag),
    ensures
        tag != current,
        match (tag_version(current), tag_version(tag)) {
            (Some(c), Some(n)) => newer_version(n, c) && !newer_version(c, n) && n != c,
            _ => true,
        },
{
}

/// The text of a version tag.
pub open spec fn tag_of(major: nat, minor: nat, patch: nat) -> Seq<char> {
    seq!['v'] + text::dec(major).push('.') + text::dec(minor).push('.') + text::dec(patch)
}

proof fn lemma_digits_have_no_dot(n: nat)
    ensures
        !text::dec(n).contains('.'),
{
    text::lemma_dec_round_trip(n);
    if text::dec(n).contains('.') {
        let k = text::dec(n).index_of('.');
        assert(text::is_digit(text::dec(n)[k]));
    }
}

/// A version tag reads as the three numbers that are written in it.
pub proof fn law_version_tags_read_back(major: u64, minor: u64, patch: u64)
    ensures
        tag_version(tag_of(major as nat, minor as nat, patch as nat)) == Some(
            (major as nat, minor as nat, patch as nat),
        ),
{
    let (a, b, c) = (text::dec(major as nat), text::dec(minor as nat), text::dec(patch as nat));
    let t = tag_of(major as nat, minor as nat, patch as nat);
    lemma_digits_have_no_dot(major as nat);
    lemma_digits_have_no_dot(minor as nat);
    lemma_digits_have_no_dot(patch as nat);
    text::lemma_dec_round_trip(major as nat);
    text::lemma_dec_round_trip(minor as nat);
    text::lemma_dec_round_trip(patch as nat);
    let two = a.push('.') + b;
    assert(t.skip(1) =~= two.push('.') + c);
    text::lemma_split_single(a, '.');
    text::lemma_split_more(a, b, '.');
    text::lemma_split_more(two, c, '.');
    assert(text::split_on(t.skip(1), '.') =~= seq![a, b, c]);
}

/// Versions are ordered: of two different ones exactly one is newer, none is newer than itself, and
/// what is newer than a newer one is newer.
pub proof fn law_versions_are_ordered(
    a: (nat, nat, nat),
    b: (nat, nat, nat),
    c: (nat, nat, nat),
)
    ensures
        !newer_version(a, a),
        a != b ==> newer_version(a, b) != newer_version(b, a),
        newer_version(a, b) && newer_version(b, c) ==> newer_version(a, c),
{
}

/// Raising one component of a version gives a newer one, whatever stands behind it.
pub proof fn law_raised_component_is_newer(
    v: (nat, nat, nat),
    more: nat,
    minor: nat,
    patch: nat,
)
    requires
        more > 0,
    ensures
        newer_version((v.0 + more, minor, patch), v),
        newer_version((v.0, v.1 + more, patch), v),
        newer_version((v.0, v.1, v.2 + more), v),
{
}

/// Of two releases whose tags are different versions, exactly one is to be installed over the other:
/// the one with the greater number in the first place where they differ. A release is never to be
/// installed over itself.
pub proof fn law_newer_releases_are_wanted(
    a: (u64, u64, u64),
    b: (u64, u64, u64),
)
    ensures
        ({
            let old_tag = tag_of(a.0 as nat, a.1 as nat, a.2 as nat);
            let new_tag = tag_of(b.0 as nat, b.1 as nat, b.2 as nat);
            &&& !wanted(old_tag, old_tag)
            &&& a != b ==> wanted(old_tag, new_tag) != wanted(new_tag, old_tag)
            &&& a.0 < b.0 ==> wanted(old_tag, new_tag)
            &&& a.0 == b.0 && a.1 < b.1 ==> wanted(old_tag, new_tag)
            &&& a.0 == b.0 && a.1 == b.1 && a.2 < b.2 ==> wanted(old_tag, new_tag)
        }),
{
    law_version_tags_read_back(a.0, a.1, a.2);
    law_version_tags_read_back(b.0, b.1, b.2);
}

/// Where either tag is no version, the release is to be installed exactly if it is another one.
pub proof fn law_unversioned_releases_are_wanted(current: Seq<char>, tag: Seq<char>)
    requires
        tag_version(current) is None || tag_version(tag) is None,
    ensures
        wanted(current, tag) <==> current != tag,
{
}

// ---------------------------------------------------------------------------
// Artifacts
// ---------------------------------------------------------------------------

/// The artifact suffix for a libcec major version.
pub fn abi_suffix(libcec_major: u32) -> (r: Result<&'static str, String>)
    ensures
        match r {
            Ok(s) => (libcec_major == 6 && s@ == "libcec6"@) || (libcec_major == 7 && s@
                == "libcec7"@),
            Err(m) => libcec_major != 6 && libcec_major != 7 && m@
                == "unsupported runtime libcec ABI "@ + text::dec(libcec_major as nat),
        },
{
    match libcec_major {
        6 => Ok("libcec6"),
        7 => Ok("libcec7"),
        _ => Err(
            text::concat(
                "unsupported runtime libcec ABI ",
                text::dec_u64(libcec_major as u64).as_str(),
            ),
        ),
    }
}

/// The name of the artifact for an architecture and a libcec major version, or why there is none.
pub open spec fn artifact_name(arch: Seq<char>, libcec_major: u32) -> Result<Seq<char>, Seq<char>> {
    if libcec_major != 6 && libcec_major != 7 {
        Err("unsupported runtime libcec ABI "@ + text::dec(libcec_major as nat))
    } else {
        let abi = if libcec_major == 6 {
            "libcec6"@
        } else {
            "libcec7"@
        };
        if arch == "aarch64"@ {
            Ok("capi-linux-arm64-"@ + abi)
        } else if arch == "arm"@ {
            Ok("capi-linux-armv6-"@ + abi)
        } else {
            Err("self-update unsupported on architecture "@ + arch)
        }
    }
}

/// The name of the artifact for an architecture and a libcec major version.
pub fn asset_name_for(arch: &str, libcec_major: u32) -> (r: Result<String, String>)
    ensures
        match r {
            Ok(n) => artifact_name(arch@, libcec_major) == Ok::<Seq<char>, Seq<char>>(n@),
            Err(m) => artifact_name(arch@, libcec_major) == Err::<Seq<char>, Seq<char>>(m@),
        },
{
    let abi = match abi_suffix(libcec_major) {
        Ok(s) => s,
        Err(m) => {
            return Err(m);
        },
    };
    if text::str_eq(arch, "aarch64") {
        Ok(text::concat("capi-linux-arm64-", abi))
    } else if text::str_eq(arch, "arm") {
        Ok(text::concat("capi-linux-armv6-", abi))
    } else {
        Err(text::concat("self-update unsupported on architecture ", arch))
    }
}

/// A file of a release.
#[derive(Debug)]
pub struct Asset {
    pub name: String,
    pub browser_download_url: String,
}

/// A release.
#[derive(Debug)]
pub struct ReleaseInfo {
    pub tag_name: String,
    pub assets: Vec<Asset>,
}

/// The names and addresses of the files of a release.
pub open spec fn asset_views(v: Seq<Asset>) -> Seq<(Seq<char>, Seq<char>)> {
    v.map_values(|a: Asset| (a.name@, a.browser_download_url@))
}

/// The address of the first file with a name, from file `i` on.
pub open spec fn asset_url_from(
    assets: Seq<(Seq<char>, Seq<char>)>,
    name: Seq<char>,
    i: int,
) -> Option<Seq<char>>
    decreases assets.len() - i,
{
    if i < 0 || i >= assets.len() {
        None
    } else if assets[i].0 == name {
        Some(assets[i].1)
    } else {
        asset_url_from(assets, name, i + 1)
    }
}

/// The address of the first file with a name.
pub open spec fn asset_url(assets: Seq<(Seq<char>, Seq<char>)>, name: Seq<char>) -> Option<
    Seq<char>,
> {
    asset_url_from(assets, name, 0)
}

fn find_asset(assets: &Vec<Asset>, name: &str) -> (r: Option<String>)
    ensures
        match r {
            Some(u) => asset_url(asset_views(assets@), name@) == Some(u@),
            None => asset_url(asset_views(assets@), name@) is None,
        },
{
    let ghost av = asset_views(assets@);
    let mut i: usize = 0;
    while i < assets.len()
        invariant
            i <= assets@.len(),
            av == asset_views(assets@),
            asset_url(av, name@) == asset_url_from(av, name@, i as int),
        decreases assets@.len() - i,
    {
        assert(av[i as int] == (assets@[i as int].name@, assets@[i as int].browser_download_url@));
        if text::str_eq(assets[i].name.as_str(), name) {
            return Some(assets[i].browser_download_url.clone());
        }
        i += 1;
    }
    None
}

/// The name of the checksum file of a release.
pub const SUMS_NAME: &'static str = "SHA256SUMS";

/// What to download.
#[derive(Debug)]
pub struct UpdatePlan {
    pub tag: String,
    pub asset_name: String,
    pub binary_url: String,
    pub sums_url: String,
}

/// What to download to install a release over the running version: nothing where it is not wanted,
/// and an error where the artifact or the checksum file is missing (an update that cannot be
/// verified is refused).
pub open spec fn planned(
    current: Seq<char>,
    tag: Seq<char>,
    assets: Seq<(Seq<char>, Seq<char>)>,
    asset_name: Result<Seq<char>, Seq<char>>,
) -> Result<Option<(Seq<char>, Seq<char>, Seq<char>)>, Seq<char>> {
    if !wanted(current, tag) {
        Ok(None)
    } else {
        match asset_name {
            Err(m) => Err(m),
            Ok(name) => match asset_url(assets, name) {
                None => Err("release "@ + tag + " has no asset "@ + name),
                Some(binary) => match asset_url(assets, SUMS_NAME@) {
                    None => Err(
                        "release "@ + tag + " has no SHA256SUMS (refusing unverified update)"@,
                    ),
                    Some(sums) => Ok(Some((name, binary, sums))),
                },
            },
        }
    }
}

/// What to download to install a release over the running version.
pub fn plan_update(current: &str, rel: &ReleaseInfo, asset_name: Result<String, String>) -> (r:
    Result<Option<UpdatePlan>, String>)
    ensures
        ({
            let want = planned(
                current@,
                rel.tag_name@,
                asset_views(rel.assets@),
                match asset_name {
                    Ok(n) => Ok(n@),
                    Err(m) => Err(m@),
                },
            );
            match r {
                Ok(Some(p)) => p.tag@ == rel.tag_name@ && want == Ok::<
                    Option<(Seq<char>, Seq<char>, Seq<char>)>,
                    Seq<char>,
                >(Some((p.asset_name@, p.binary_url@, p.sums_url@))),
                Ok(None) => want == Ok::<Option<(Seq<char>, Seq<char>, Seq<char>)>, Seq<char>>(None),
                Err(m) => want == Err::<Option<(Seq<char>, Seq<char>, Seq<char>)>, Seq<char>>(m@),
            }
        }),
{
    let tag = rel.tag_name.as_str();
    if !is_wanted(current, tag) {
        return Ok(None);
    }
    let name = match asset_name {
        Ok(n) => n,
        Err(m) => {
            return Err(m);
        },
    };
    let binary_url = match find_asset(&rel.assets, name.as_str()) {
        Some(u) => u,
        None => {
            let mut m = text::concat3("release ", tag, " has no asset ");
            m.append(name.as_str());
            return Err(m);
        },
    };
    let sums_url = match find_asset(&rel.assets, SUMS_NAME) {
        Some(u) => u,
        None => {
            return Err(
                text::concat3("release ", tag, " has no SHA256SUMS (refusing unverified update)"),
            );
        },
    };
    Ok(Some(UpdatePlan { tag: rel.tag_name.clone(), asset_name: name, binary_url, sums_url }))
}

/// The address of the latest release.
pub fn release_url(base: &str, repo: &str) -> (r: String)
    ensures
        r@ == base@ + "/repos/"@ + repo@ + "/releases/latest"@,
{
    let mut u = text::concat3(base, "/repos/", repo);
    u.append("/releases/latest");
    u
}

// ---------------------------------------------------------------------------
// Checksums
// ---------------------------------------------------------------------------

/// The checksum of a file, from line `i` of a checksum list on: the list ends at a line that has
/// no checksum and name, and a star before the name does not count.
pub open spec fn hash_from(lines: Seq<Seq<char>>, asset: Seq<char>, i: int) -> Option<Seq<char>>
    decreases lines.len() - i,
{
    if i < 0 || i >= lines.len() {
        None
    } else {
        let w = text::words_of(lines[i]);
        if w.len() < 2 {
            None
        } else if text::without_leading(w[1], '*') == asset {
            Some(text::lower(w[0]))
        } else {
            hash_from(lines, asset, i + 1)
        }
    }
}

/// The checksum of a file in a checksum list.
pub open spec fn listed_hash(sums: Seq<char>, asset: Seq<char>) -> Option<Seq<char>> {
    hash_from(text::lines_of(sums), asset, 0)
}

/// The checksum of a file in a checksum list.
pub fn expected_hash(sums: &str, asset: &str) -> (r: Option<String>)
    ensures
        match r {
            Some(h) => listed_hash(sums@, asset@) == Some(h@),
            None => listed_hash(sums@, asset@) is None,
        },
{
    let lines = text::lines(sums);
    let ghost ls = text::lines_of(sums@);
    let mut i: usize = 0;
    while i < lines.len()
        invariant
            i <= lines@.len(),
            text::views(lines@) == ls,
            ls == text::lines_of(sums@),
            listed_hash(sums@, asset@) == hash_from(ls, asset@, i as int),
        decreases lines@.len() - i,
    {
        assert(ls[i as int] == lines@[i as int]@);
        let w = text::words(lines[i].as_str());
        let ghost wv = text::words_of(ls[i as int]);
        assert(text::views(w@) == wv);
        if w.len() < 2 {
            return None;
        }
        assert(wv[0] == w@[0]@);
        assert(wv[1] == w@[1]@);
        if text::str_eq(text::trim_leading(w[1].as_str(), '*'), asset) {
            return Some(text::to_lowercase(w[0].as_str()));
        }
        i += 1;
    }
    None
}

/// The SHA-256 digest of a byte string.
pub uninterp spec fn sha256(bytes: Seq<u8>) -> Seq<u8>;

/// `sha2::Sha256::digest`: the digest is a function of the bytes alone and has 32 bytes.
#[verifier::external_body]
fn digest(bytes: &[u8]) -> (r: Vec<u8>)
    ensures
        r@ == sha256(bytes@),
        r@.len() == 32,
{
    sha2::Sha256::digest(bytes).to_vec()
}

/// The hexadecimal form of a byte string: two lowercase digits for each byte.
pub open spec fn hex_text(bytes: Seq<u8>) -> Seq<char>
    decreases bytes.len(),
{
    if bytes.len() == 0 {
        Seq::empty()
    } else {
        hex_text(bytes.drop_last()) + text::hex(bytes.last() as nat, 2, false)
    }
}

/// `hex::encode`: two lowercase hexadecimal digits for each byte, the high half first.
#[verifier::external_body]
fn hex_encode(bytes: &[u8]) -> (r: String)
    ensures
        r@ == hex_text(bytes@),
{
    hex::encode(bytes)
}

/// Whether a download with a digest may be installed: only if the checksum list has its checksum.
pub open spec fn checksum_fault(sums: Seq<char>, asset: Seq<char>, actual: Seq<char>) -> Option<
    Seq<char>,
> {
    match listed_hash(sums, asset) {
        None => Some("SHA256SUMS has no entry for "@ + asset),
        Some(expected) => if actual == expected {
            None
        } else {
            Some(
                "checksum mismatch for "@ + asset + ": expected "@ + expected + ", got "@ + actual,
            )
        },
    }
}

/// Holds the digest of a download, in hexadecimal, against a checksum list.
pub fn verify_checksum(sums: &str, asset: &str, actual: &str) -> (r: Result<(), String>)
    ensures
        match r {
            Ok(()) => checksum_fault(sums@, asset@, actual@) is None,
            Err(m) => checksum_fault(sums@, asset@, actual@) == Some(m@),
        },
{
    match expected_hash(sums, asset) {
        None => Err(text::concat("SHA256SUMS has no entry for ", asset)),
        Some(expected) => {
            if text::str_eq(actual, expected.as_str()) {
                Ok(())
            } else {
                let mut m = text::concat3("checksum mismatch for ", asset, ": expected ");
                m.append(expected.as_str());
                m.append(", got ");
                m.append(actual);
                Err(m)
            }
        },
    }
}

/// Holds a download against a checksum list. Nothing is installed that fails this.
pub fn verify_download(bytes: &[u8], sums: &str, asset: &str) -> (r: Result<(), String>)
    ensures
        match r {
            Ok(()) => checksum_fault(sums@, asset@, hex_text(sha256(bytes@))) is None,
            Err(m) => checksum_fault(sums@, asset@, hex_text(sha256(bytes@))) == Some(m@),
        },
{
    let d = digest(bytes);
    let actual = hex_encode(d.as_slice());
    verify_checksum(sums, asset, actual.as_str())
}

/// A download that is installed has exactly the checksum that the list gives for it.
pub proof fn law_only_verified_downloads_are_installed(
    bytes: Seq<u8>,
    sums: Seq<char>,
    asset: Seq<char>,
)
    ensures
        checksum_fault(sums, asset, hex_text(sha256(bytes))) is None <==> listed_hash(sums, asset)
            == Some(hex_text(sha256(bytes))),
{
}

/// Without a checksum file nothing is planned, whatever else the release has.
pub proof fn law_no_plan_without_checksums(
    current: Seq<char>,
    tag: Seq<char>,
    assets: Seq<(Seq<char>, Seq<char>)>,
    asset_name: Result<Seq<char>, Seq<char>>,
)
    requires
        asset_url(assets, SUMS_NAME@) is None,
    ensures
        !(planned(current, tag, assets, asset_name) matches Ok(Some(_))),
{
}

// ---------------------------------------------------------------------------
// The swap
// ---------------------------------------------------------------------------

/// A step of putting a verified binary in place.
#[derive(Debug, Clone, Copy, PartialEq, Eq, Structural)]
pub enum SwapStep {
    /// Move the running binary to the backup name. A failure is ignored: there may be none.
    Backup,
    /// Move the new binary to its place.
    Install,
    /// Move the backup back.
    Restore,
    /// The new binary is in place.
    Installed,
    /// The old binary is in place, if there was one.
    RolledBack,
}

/// The step after a step that went well or not.
pub open spec fn swap_step_after(step: SwapStep, ok: bool) -> SwapStep {
    match step {
        SwapStep::Backup => SwapStep::Install,
        SwapStep::Install => if ok {
            SwapStep::Installed
        } else {
            SwapStep::Restore
        },
        SwapStep::Restore => SwapStep::RolledBack,
        SwapStep::Installed => SwapStep::Installed,
        SwapStep::RolledBack => SwapStep::RolledBack,
    }
}

/// The step after a step that went well or not.
pub fn next_swap_step(step: SwapStep, ok: bool) -> (r: SwapStep)
    ensures
        r == swap_step_after(step, ok),
{
    match step {
        SwapStep::Backup => SwapStep::Install,
        SwapStep::Install => if ok {
            SwapStep::Installed
        } else {
            SwapStep::Restore
        },
        SwapStep::Restore => SwapStep::RolledBack,
        SwapStep::Installed => SwapStep::Installed,
        SwapStep::RolledBack => SwapStep::RolledBack,
    }
}

// ---------------------------------------------------------------------------
// Laws of releases
// ---------------------------------------------------------------------------

proof fn lemma_asset_url(assets: Seq<(Seq<char>, Seq<char>)>, name: Seq<char>, i: int)
    requires
        0 <= i,
    ensures
        match asset_url_from(assets, name, i) {
            Some(u) => exists|k: int|
                #![trigger assets[k]]
                i <= k < assets.len() && assets[k] == (name, u) && forall|j: int|
                    i <= j < k ==> (#[trigger] assets[j]).0 != name,
            None => forall|j: int| i <= j < assets.len() ==> (#[trigger] assets[j]).0 != name,
        },
    decreases assets.len() - i,
{
    if i < assets.len() {
        if assets[i].0 == name {
            assert(assets[i] == (name, assets[i].1));
        } else {
            lemma_asset_url(assets, name, i + 1);
            if let Some(u) = asset_url_from(assets, name, i + 1) {
                let k = choose|k: int|
                    #![trigger assets[k]]
                    i + 1 <= k < assets.len() && assets[k] == (name, u) && forall|j: int|
                        i + 1 <= j < k ==> (#[trigger] assets[j]).0 != name;
                assert(assets[k] == (name, u));
            }
        }
    }
}

/// What is downloaded is the file of the release with the name that was asked for, the first of that
/// name; a file of another name is never taken in its place.
pub proof fn law_downloads_come_from_the_named_file(
    assets: Seq<(Seq<char>, Seq<char>)>,
    name: Seq<char>,
)
    ensures
        match asset_url(assets, name) {
            Some(u) => assets.contains((name, u)) && exists|k: int|
                #![trigger assets[k]]
                0 <= k < assets.len() && assets[k] == (name, u) && forall|j: int|
                    0 <= j < k ==> (#[trigger] assets[j]).0 != name,
            None => forall|j: int| 0 <= j < assets.len() ==> (#[trigger] assets[j]).0 != name,
        },
{
    lemma_asset_url(assets, name, 0);
}

/// A plan is made exactly where the release is wanted, the machine has an artifact, and the release
/// holds that artifact and a checksum list; the plan names both. Nothing is planned, and nothing is
/// complained about, where the release is not wanted.
pub proof fn law_plan_is_the_artifact_and_its_checksums(
    current: Seq<char>,
    tag: Seq<char>,
    assets: Seq<(Seq<char>, Seq<char>)>,
    asset_name: Result<Seq<char>, Seq<char>>,
)
    ensures
        ({
            let plan = planned(current, tag, assets, asset_name);
            &&& !wanted(current, tag) ==> plan == Ok::<
                Option<(Seq<char>, Seq<char>, Seq<char>)>,
                Seq<char>,
            >(None)
            &&& wanted(current, tag) && (asset_name matches Ok(n) && asset_url(assets, n) is Some)
                && asset_url(assets, "SHA256SUMS"@) is Some ==> plan == Ok::<
                Option<(Seq<char>, Seq<char>, Seq<char>)>,
                Seq<char>,
            >(
                Some(
                    (
                        asset_name->Ok_0,
                        asset_url(assets, asset_name->Ok_0)->0,
                        asset_url(assets, "SHA256SUMS"@)->0,
                    ),
                ),
            )
            &&& wanted(current, tag) && asset_name is Err ==> plan is Err
            &&& wanted(current, tag) && (asset_name matches Ok(n) && asset_url(assets, n) is None)
                ==> plan is Err
            &&& wanted(current, tag) && asset_url(assets, "SHA256SUMS"@) is None ==> plan is Err
        }),
{
}

/// The artifact of a machine names its architecture and its libcec: there are artifacts for 64-bit
/// and 32-bit ARM and for libcec 6 and 7, and for nothing else.
pub proof fn law_artifacts_fit_the_machine(arch: Seq<char>, major: u32, other: u32)
    ensures
        (artifact_name(arch, major) is Ok) == ((arch == "aarch64"@ || arch == "arm"@) && (major == 6
            || major == 7)),
        arch == "aarch64"@ ==> (artifact_name(arch, major) matches Ok(n) ==> n
            == "capi-linux-arm64-libcec"@ + text::dec(major as nat)),
        arch == "arm"@ ==> (artifact_name(arch, major) matches Ok(n) ==> n
            == "capi-linux-armv6-libcec"@ + text::dec(major as nat)),
{
    reveal_strlit("aarch64");
    reveal_strlit("arm");
    reveal_strlit("libcec6");
    reveal_strlit("libcec7");
    reveal_strlit("capi-linux-arm64-");
    reveal_strlit("capi-linux-armv6-");
    reveal_strlit("capi-linux-arm64-libcec");
    reveal_strlit("capi-linux-armv6-libcec");
    assert("aarch64"@.len() != "arm"@.len());
    assert(text::dec(6) =~= seq!['6']);
    assert(text::dec(7) =~= seq!['7']);
    assert("capi-linux-arm64-"@ + "libcec6"@ =~= "capi-linux-arm64-libcec"@ + seq!['6']);
    assert("capi-linux-arm64-"@ + "libcec7"@ =~= "capi-linux-arm64-libcec"@ + seq!['7']);
    assert("capi-linux-armv6-"@ + "libcec6"@ =~= "capi-linux-armv6-libcec"@ + seq!['6']);
    assert("capi-linux-armv6-"@ + "libcec7"@ =~= "capi-linux-armv6-libcec"@ + seq!['7']);
}

proof fn lemma_hash_from(lines: Seq<Seq<char>>, asset: Seq<char>, i: int, k: int)
    requires
        0 <= i <= k < lines.len(),
        forall|j: int|
            i <= j < k ==> text::words_of(#[trigger] lines[j]).len() >= 2 && text::without_leading(
                text::words_of(lines[j])[1],
                '*',
            ) != asset,
    ensures
        hash_from(lines, asset, i) == hash_from(lines, asset, k),
    decreases k - i,
{
    if i < k {
        assert(text::words_of(lines[i]).len() >= 2);
        lemma_hash_from(lines, asset, i + 1, k);
    }
}

/// The checksum of a file is the one on the first line of the list that names the file, whatever
/// files the lines before it name.
pub proof fn law_checksum_stands_on_the_line_of_the_file(
    sums: Seq<char>,
    asset: Seq<char>,
    k: int,
)
    requires
        0 <= k < text::lines_of(sums).len(),
        text::words_of(text::lines_of(sums)[k]).len() >= 2,
        text::without_leading(text::words_of(text::lines_of(sums)[k])[1], '*') == asset,
        forall|j: int|
            0 <= j < k ==> text::words_of(#[trigger] text::lines_of(sums)[j]).len() >= 2
                && text::without_leading(text::words_of(text::lines_of(sums)[j])[1], '*') != asset,
    ensures
        listed_hash(sums, asset) == Some(text::lower(text::words_of(text::lines_of(sums)[k])[0])),
{
    lemma_hash_from(text::lines_of(sums), asset, 0, k);
}

proof fn lemma_hash_found(lines: Seq<Seq<char>>, asset: Seq<char>, i: int) -> (k: int)
    requires
        0 <= i,
        hash_from(lines, asset, i) is Some,
    ensures
        i <= k < lines.len(),
        text::words_of(lines[k]).len() >= 2,
        text::without_leading(text::words_of(lines[k])[1], '*') == asset,
        hash_from(lines, asset, i) == Some(text::lower(text::words_of(lines[k])[0])),
    decreases lines.len() - i,
{
    if text::without_leading(text::words_of(lines[i])[1], '*') == asset {
        i
    } else {
        lemma_hash_found(lines, asset, i + 1)
    }
}

/// A file that no line of the list names has no checksum, and is therefore never installed.
pub proof fn law_unlisted_files_are_refused(sums: Seq<char>, asset: Seq<char>, actual: Seq<char>)
    requires
        forall|j: int|
            0 <= j < text::lines_of(sums).len() && text::words_of(
                #[trigger] text::lines_of(sums)[j],
            ).len() >= 2 ==> text::without_leading(text::words_of(text::lines_of(sums)[j])[1], '*')
                != asset,
    ensures
        listed_hash(sums, asset) is None,
        checksum_fault(sums, asset, actual) is Some,
{
    if listed_hash(sums, asset) is Some {
        let k = lemma_hash_found(text::lines_of(sums), asset, 0);
        assert(text::words_of(text::lines_of(sums)[k]).len() >= 2);
    }
}

/// A swap never ends with the old binary away and the new one not in place: where the new binary
/// could not be put in its place, the backup is put back before the swap ends.
pub proof fn law_failed_swap_is_rolled_back(step: SwapStep, ok: bool)
    ensures
        swap_step_after(SwapStep::Backup, ok) == SwapStep::Install,
        swap_step_after(SwapStep::Install, false) == SwapStep::Restore,
        swap_step_after(SwapStep::Install, true) == SwapStep::Installed,
        swap_step_after(step, ok) == SwapStep::Installed ==> step == SwapStep::Installed || (step
            == SwapStep::Install && ok),
        swap_step_after(step, ok) == SwapStep::RolledBack ==> step == SwapStep::RolledBack || step
            == SwapStep::Restore,
{
}

} // verus!
