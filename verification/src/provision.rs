//! Provisioning a remote Linux server over SSH: the commands, texts and checks
//! of the installation, and its sequence as a request protocol for the host.
use base64::Engine;
use crate::process::{cat, cat3, opt_str, own};
use crate::text::{
    chars_of, decimal, decimal_string, ends, ends_with_str, lines, replace_all, replace_chars,
    split_lines,
    str_eq, string_of, texts, trim, trimmed,
};
use vstd::prelude::*;

verus! {

/// The systemd unit that runs the remote backend.
pub const SERVICE_NAME: &'static str = "jean-remote.service";

/// Where the backend is installed on the server.
pub const REMOTE_INSTALL_DIR: &'static str = "/opt/jean-remote";

/// The installed AppImage.
pub const REMOTE_BINARY_PATH: &'static str = "/opt/jean-remote/jean.AppImage";

/// The event that reports provisioning progress.
pub const PROVISION_PROGRESS_EVENT: &'static str = "remote-server:provision-progress";

/// The event that carries provisioning log lines.
pub const PROVISION_LOG_EVENT: &'static str = "remote-server:provision-log";

/// The updater's minisign public key, base64-encoded.
pub const JEAN_UPDATER_PUBLIC_KEY: &'static str = "dW50cnVzdGVkIGNvbW1lbnQ6IG1pbmlzaWduIHB1YmxpYyBrZXk6IDYyNzkyNTI0QUFENzA3MUYKUldRZkI5ZXFKQ1Y1WWdod05PSjhkcUVBUnNyOWJTcEpVazBRN01SUndya2JQcTdNeUxrS0pFY3QK";

/// How the client authenticates to the server.
#[derive(Clone, Debug)]
pub enum RemoteServerAuth {
    /// A private key file, with its passphrase when it has one.
    SshKeyPath { path: String, passphrase: Option<String> },
}

/// The connection state of a remote server.
#[derive(Clone, Debug)]
pub enum RemoteServerStatus {
    Disconnected,
}

/// A remote server as configured.
#[derive(Clone, Debug)]
pub struct RemoteServerConfig {
    pub id: String,
    pub name: String,
    pub host: String,
    pub port: u16,
    pub username: String,
    pub auth: RemoteServerAuth,
    pub default: bool,
    /// The loopback port the backend listens on.
    pub remote_port: u16,
    pub status: RemoteServerStatus,
    pub http_token: Option<String>,
    pub installed_version: Option<String>,
}

/// What a finished provisioning installed.
#[derive(Clone, Debug)]
pub struct ProvisionResult {
    pub success: bool,
    pub version: String,
    pub remote_port: u16,
    pub service_name: String,
}

// ---------------------------------------------------------------------------
// Texts
// ---------------------------------------------------------------------------

/// The command that starts the backend under a virtual display, on loopback.
pub open spec fn launch_command(remote_port: u16, token: Seq<char>) -> Seq<char> {
    "/usr/bin/xvfb-run -a /opt/jean-remote/jean.AppImage --headless --host 127.0.0.1 --port "@
        + decimal(remote_port as nat) + " --token "@ + token
}

/// The command that starts the backend under a virtual display, on loopback.
pub fn jean_launch_command(remote_port: u16, token: &str) -> (r: String)
    ensures
        r@ == launch_command(remote_port, token@),
{
    let port = decimal_string(remote_port as u64);
    let mut r = cat3(
        "/usr/bin/xvfb-run -a /opt/jean-remote/jean.AppImage --headless --host 127.0.0.1 --port ",
        port.as_str(),
        " --token ",
    );
    r.append(token);
    r
}

/// A single-quoted shell word: each `'` becomes `'\''`.
pub open spec fn shell_quoted(value: Seq<char>) -> Seq<char> {
    "'"@ + replace_all(value, "'"@, "'\\''"@) + "'"@
}

/// Quotes `value` as one shell word.
pub fn shell_quote(value: &str) -> (r: String)
    ensures
        r@ == shell_quoted(value@),
{
    let v = chars_of(value);
    let from = chars_of("'");
    let to = chars_of("'\\''");
    proof {
        reveal_strlit("'");
    }
    let body = replace_chars(v.as_slice(), from.as_slice(), to.as_slice());
    let b = string_of(body.as_slice());
    cat3("'", b.as_str(), "'")
}

/// The script that checks for Linux, root or passwordless sudo and systemd,
/// and installs the packages the backend needs (xvfb, GTK, WebKitGTK).
pub open spec fn dependency_script() -> Seq<char> {
    DEP_SCRIPT@
}

/// The dependency installation script.
pub fn dependency_install_command() -> (r: String)
    ensures
        r@ == dependency_script(),
{
    own(DEP_SCRIPT)
}

/// The dependency installation script's text.
pub const DEP_SCRIPT: &'static str = "set -eu\nif [ \"$(uname -s)\" != \"Linux\" ]; then\n  echo \"Remote provisioning currently supports Linux servers only\" >&2\n  exit 64\nfi\nif [ \"$(id -u)\" -eq 0 ]; then\n  SUDO=\"\"\nelif command -v sudo >/dev/null 2>&1 && sudo -n true >/dev/null 2>&1; then\n  SUDO=\"sudo -n\"\nelse\n  echo \"Passwordless sudo or root access is required for provisioning\" >&2\n  exit 77\nfi\nif command -v apt-get >/dev/null 2>&1; then\n  $SUDO apt-get update -qq\n  WEBKIT_PACKAGE=\"libwebkit2gtk-4.1-0\"\n  if ! apt-cache show \"$WEBKIT_PACKAGE\" >/dev/null 2>&1; then\n    WEBKIT_PACKAGE=\"libwebkit2gtk-4.0-37\"\n  fi\n  $SUDO env DEBIAN_FRONTEND=noninteractive apt-get install -y xvfb libgtk-3-0 \"$WEBKIT_PACKAGE\"\nelif command -v dnf >/dev/null 2>&1; then\n  $SUDO dnf install -y xorg-x11-server-Xvfb gtk3 webkit2gtk4.1\nelif command -v yum >/dev/null 2>&1; then\n  $SUDO yum install -y xorg-x11-server-Xvfb gtk3 webkit2gtk4.1\nelif command -v pacman >/dev/null 2>&1; then\n  $SUDO pacman -Sy --noconfirm xorg-server-xvfb gtk3 webkit2gtk-4.1\nelse\n  echo \"Unsupported Linux package manager\" >&2\n  exit 65\nfi\ncommand -v systemctl >/dev/null 2>&1 || {\n  echo \"systemd is required for Jean remote provisioning\" >&2\n  exit 66\n}\n";

/// The release platform of a server architecture (`uname -m`, trimmed).
pub open spec fn platform_of(architecture: Seq<char>) -> Result<Seq<char>, Seq<char>> {
    let a = trim(architecture);
    if a == "x86_64"@ || a == "amd64"@ {
        Ok("linux-x86_64"@)
    } else if a == "aarch64"@ || a == "arm64"@ {
        Ok("linux-aarch64"@)
    } else {
        Err("Unsupported remote architecture: "@ + a)
    }
}

/// The release platform of a server architecture.
pub fn platform_key(architecture: &str) -> (r: Result<String, String>)
    ensures
        match r {
            Ok(k) => platform_of(architecture@) == Ok::<Seq<char>, Seq<char>>(k@),
            Err(e) => platform_of(architecture@) == Err::<Seq<char>, Seq<char>>(e@),
        },
{
    let a = string_of(trimmed(chars_of(architecture).as_slice()).as_slice());
    let s = a.as_str();
    if str_eq(s, "x86_64") || str_eq(s, "amd64") {
        Ok(own("linux-x86_64"))
    } else if str_eq(s, "aarch64") || str_eq(s, "arm64") {
        Ok(own("linux-aarch64"))
    } else {
        Err(cat("Unsupported remote architecture: ", s))
    }
}

/// The systemd unit that runs the backend as the server's user.
pub open spec fn systemd_unit(username: Seq<char>, remote_port: u16, token: Seq<char>) -> Seq<char> {
    UNIT_HEAD@ + username + UNIT_MIDDLE@ + launch_command(remote_port, token) + UNIT_TAIL@
}

/// The unit up to the user's name.
pub const UNIT_HEAD: &'static str = "[Unit]\nDescription=Jean remote headless server\nAfter=network-online.target\nWants=network-online.target\n\n[Service]\nType=simple\nUser=";

/// The unit between the user's name and the start command.
pub const UNIT_MIDDLE: &'static str = "\nEnvironment=APPIMAGE_EXTRACT_AND_RUN=1\nExecStart=";

/// The unit after the start command.
pub const UNIT_TAIL: &'static str = "\nRestart=on-failure\nRestartSec=3\n\n[Install]\nWantedBy=multi-user.target\n";

/// The systemd unit for `server`, with the backend's token.
pub fn build_systemd_unit(server: &RemoteServerConfig, token: &str) -> (r: String)
    ensures
        r@ == systemd_unit(server.username@, server.remote_port, token@),
{
    let launch = jean_launch_command(server.remote_port, token);
    let mut r = cat3(UNIT_HEAD, server.username.as_str(), UNIT_MIDDLE);
    r.append(launch.as_str());
    r.append(UNIT_TAIL);
    r
}

/// The script that installs the uploaded AppImage, records the version,
/// writes the unit (sent base64-encoded) and enables the service.
pub open spec fn install_script(remote_temp: Seq<char>, version: Seq<char>, unit_base64: Seq<char>) -> Seq<
    char,
> {
    INSTALL_HEAD@ + shell_quoted(remote_temp) + INSTALL_BINARY@ + shell_quoted(version)
        + INSTALL_VERSION@ + shell_quoted(unit_base64) + INSTALL_UNIT@ + shell_quoted(remote_temp)
        + "\n"@
}

/// The installation script up to the uploaded file.
pub const INSTALL_HEAD: &'static str = "set -eu\nif [ \"$(id -u)\" -eq 0 ]; then SUDO=\"\"; else SUDO=\"sudo -n\"; fi\n$SUDO install -d -m 0755 /opt/jean-remote\n$SUDO install -m 0755 ";

/// The installation script up to the version.
pub const INSTALL_BINARY: &'static str = " /opt/jean-remote/jean.AppImage\nprintf '%s' ";

/// The installation script up to the encoded unit.
pub const INSTALL_VERSION: &'static str = " | $SUDO tee /opt/jean-remote/VERSION >/dev/null\nprintf '%s' ";

/// The installation script up to the removal of the upload.
pub const INSTALL_UNIT: &'static str = " | base64 -d | $SUDO tee /etc/systemd/system/jean-remote.service >/dev/null\n$SUDO systemctl daemon-reload\n$SUDO systemctl enable --now jean-remote.service\nrm -f ";

/// The installation script.
pub fn install_command(remote_temp: &str, version: &str, unit_base64: &str) -> (r: String)
    ensures
        r@ == install_script(remote_temp@, version@, unit_base64@),
{
    let temp = shell_quote(remote_temp);
    let mut r = cat3(INSTALL_HEAD, temp.as_str(), INSTALL_BINARY);
    r.append(shell_quote(version).as_str());
    r.append(INSTALL_VERSION);
    r.append(shell_quote(unit_base64).as_str());
    r.append(INSTALL_UNIT);
    r.append(temp.as_str());
    r.append("\n");
    r
}

/// The message of a failed remote step: its standard error, trimmed, or its
/// exit status when that is empty.
pub open spec fn failure_message(label: Seq<char>, stderr: Seq<char>, status: Seq<char>) -> Seq<char> {
    if trim(stderr).len() == 0 {
        label + " with status "@ + status
    } else {
        label + ": "@ + trim(stderr)
    }
}

/// The message of a failed remote step.
pub fn failure_text(label: &str, stderr: &str, status: &str) -> (r: String)
    ensures
        r@ == failure_message(label@, stderr@, status@),
{
    let t = string_of(trimmed(chars_of(stderr).as_slice()).as_slice());
    if t.as_str().is_empty() {
        cat3(label, " with status ", status)
    } else {
        cat3(label, ": ", t.as_str())
    }
}

/// The log lines of a remote command's output: each trimmed non-empty line
/// of standard output, then of standard error, with its stream's name.
pub open spec fn log_lines(stdout: Seq<char>, stderr: Seq<char>) -> Seq<(Seq<char>, Seq<char>)> {
    stream_lines("stdout"@, lines(stdout)) + stream_lines("stderr"@, lines(stderr))
}

/// The trimmed non-empty lines, each paired with `stream`.
pub open spec fn stream_lines(stream: Seq<char>, ls: Seq<Seq<char>>) -> Seq<(Seq<char>, Seq<char>)>
    decreases ls.len(),
{
    if ls.len() == 0 {
        seq![]
    } else if trim(ls.last()).len() == 0 {
        stream_lines(stream, ls.drop_last())
    } else {
        stream_lines(stream, ls.drop_last()).push((stream, trim(ls.last())))
    }
}

/// Pairs of a stream name and a line, in mathematical form.
pub open spec fn pairs(v: Seq<(String, String)>) -> Seq<(Seq<char>, Seq<char>)> {
    v.map_values(|p: (String, String)| (p.0@, p.1@))
}

fn push_stream_lines(out: &mut Vec<(String, String)>, stream: &str, text: &str)
    ensures
        pairs(final(out)@) == pairs(old(out)@) + stream_lines(stream@, lines(text@)),
{
    let ls = split_lines(chars_of(text).as_slice());
    let ghost start = pairs(out@);
    let mut i: usize = 0;
    assert(texts(ls@).take(0) =~= Seq::<Seq<char>>::empty());
    assert(start + Seq::<(Seq<char>, Seq<char>)>::empty() =~= start);
    while i < ls.len()
        invariant
            i <= ls@.len(),
            pairs(out@) == start + stream_lines(stream@, texts(ls@).take(i as int)),
        decreases ls.len() - i,
    {
        assert(texts(ls@).take(i + 1).drop_last() =~= texts(ls@).take(i as int));
        assert(texts(ls@).take(i + 1).last() == ls@[i as int]@);
        let t = trimmed(ls[i].as_slice());
        if t.len() > 0 {
            let ghost before = pairs(out@);
            let ghost tt = t@;
            out.push((own(stream), string_of(t.as_slice())));
            assert(pairs(out@) =~= before.push((stream@, tt)));
            assert(start + stream_lines(stream@, texts(ls@).take(i + 1)) =~= (start
                + stream_lines(stream@, texts(ls@).take(i as int))).push((stream@, tt)));
        }
        i = i + 1;
    }
    assert(texts(ls@).take(ls@.len() as int) =~= texts(ls@));
}

/// The log lines of a remote command's output.
pub fn output_log_lines(stdout: &str, stderr: &str) -> (r: Vec<(String, String)>)
    ensures
        pairs(r@) == log_lines(stdout@, stderr@),
{
    let mut r: Vec<(String, String)> = Vec::new();
    assert(pairs(r@) =~= Seq::<(Seq<char>, Seq<char>)>::empty());
    push_stream_lines(&mut r, "stdout", stdout);
    push_stream_lines(&mut r, "stderr", stderr);
    assert(Seq::<(Seq<char>, Seq<char>)>::empty() + stream_lines("stdout"@, lines(stdout@))
        + stream_lines("stderr"@, lines(stderr@)) =~= log_lines(stdout@, stderr@));
    r
}

// ---------------------------------------------------------------------------
// Releases
// ---------------------------------------------------------------------------

/// The URL of the release manifest of `version`.
pub open spec fn manifest_url(version: Seq<char>) -> Seq<char> {
    "https://github.com/coollabsio/jean/releases/download/v"@ + version + "/latest.json"@
}

/// The URL of the release manifest of `version`.
pub fn release_manifest_url(version: &str) -> (r: String)
    ensures
        r@ == manifest_url(version@),
{
    cat3("https://github.com/coollabsio/jean/releases/download/v", version, "/latest.json")
}

/// `s` without its leading `v`s.
pub open spec fn without_v(s: Seq<char>) -> Seq<char>
    decreases s.len(),
{
    if s.len() > 0 && s[0] == 'v' {
        without_v(s.drop_first())
    } else {
        s
    }
}

/// The artifact (URL, signature) of the first platform entry named `key`.
pub open spec fn platform_entry(platforms: Seq<(Seq<char>, Seq<char>, Seq<char>)>, key: Seq<char>) -> Option<
    (Seq<char>, Seq<char>),
>
    decreases platforms.len(),
{
    if platforms.len() == 0 {
        None
    } else if platforms[0].0 == key {
        Some((platforms[0].1, platforms[0].2))
    } else {
        platform_entry(platforms.drop_first(), key)
    }
}

/// Triples of strings in mathematical form.
pub open spec fn triples(v: Seq<(String, String, String)>) -> Seq<(Seq<char>, Seq<char>, Seq<char>)> {
    v.map_values(|t: (String, String, String)| (t.0@, t.1@, t.2@))
}

/// Checking a release manifest: its version must be `expected` (leading `v`s
/// aside) and it must have an artifact for the server's platform.
pub open spec fn manifest_choice(
    manifest_version: Seq<char>,
    platforms: Seq<(Seq<char>, Seq<char>, Seq<char>)>,
    expected: Seq<char>,
    architecture: Seq<char>,
) -> Result<(Seq<char>, Seq<char>), Seq<char>> {
    if without_v(manifest_version) != expected {
        Err(
            "Jean release manifest version mismatch: expected "@ + expected + ", got "@
                + manifest_version,
        )
    } else {
        match platform_of(architecture) {
            Err(e) => Err(e),
            Ok(key) => match platform_entry(platforms, key) {
                Some(entry) => Ok(entry),
                None => Err("Jean release has no artifact for "@ + key),
            },
        }
    }
}

/// Whether an entry of the release archive is the AppImage: a regular file
/// whose path ends in `.AppImage`.
pub open spec fn appimage_entry(is_file: bool, path: Seq<char>) -> bool {
    is_file && ends(path, ".AppImage"@)
}

/// Whether an entry of the release archive is the AppImage to install.
pub fn is_appimage_entry(is_file: bool, path: &str) -> (r: bool)
    ensures
        r == appimage_entry(is_file, path@),
{
    is_file && ends_with_str(chars_of(path).as_slice(), ".AppImage")
}

/// The artifact (URL, signature) to download, from a release manifest with
/// `manifest_version` and `platforms` (name, URL, signature).
pub fn select_release_artifact(
    manifest_version: &str,
    platforms: &Vec<(String, String, String)>,
    expected: &str,
    architecture: &str,
) -> (r: Result<(String, String), String>)
    ensures
        match r {
            Ok((url, sig)) => manifest_choice(manifest_version@, triples(platforms@), expected@, architecture@)
                == Ok::<(Seq<char>, Seq<char>), Seq<char>>((url@, sig@)),
            Err(e) => manifest_choice(manifest_version@, triples(platforms@), expected@, architecture@)
                == Err::<(Seq<char>, Seq<char>), Seq<char>>(e@),
        },
{
    let v = chars_of(manifest_version);
    let mut i: usize = 0;
    assert(v@.skip(0) =~= v@);
    while i < v.len() && v[i] == 'v'
        invariant
            i <= v@.len(),
            without_v(v@) == without_v(v@.skip(i as int)),
        decreases v.len() - i,
    {
        assert(v@.skip(i as int).drop_first() =~= v@.skip(i + 1));
        i = i + 1;
    }
    assert(v@.subrange(i as int, v@.len() as int) =~= v@.skip(i as int));
    let trimmed_version = string_of(crate::text::slice_chars(v.as_slice(), i, v.len()).as_slice());
    assert(v@ == manifest_version@);
    if !str_eq(trimmed_version.as_str(), expected) {
        let mut msg = cat3("Jean release manifest version mismatch: expected ", expected, ", got ");
        msg.append(manifest_version);
        return Err(msg);
    }
    let key = match platform_key(architecture) {
        Ok(k) => k,
        Err(e) => {
            return Err(e);
        },
    };
    let ghost all = triples(platforms@);
    let mut j: usize = 0;
    assert(all.skip(0) =~= all);
    while j < platforms.len()
        invariant
            j <= platforms@.len(),
            all == triples(platforms@),
            without_v(manifest_version@) == expected@,
            platform_of(architecture@) == Ok::<Seq<char>, Seq<char>>(key@),
            platform_entry(all, key@) == platform_entry(all.skip(j as int), key@),
        decreases platforms.len() - j,
    {
        assert(all.skip(j as int)[0] == all[j as int]);
        assert(all[j as int] == (platforms@[j as int].0@, platforms@[j as int].1@, platforms@[
            j as int].2@));
        if str_eq(platforms[j].0.as_str(), key.as_str()) {
            let url = platforms[j].1.clone();
            let sig = platforms[j].2.clone();
            assert(platform_entry(all.skip(j as int), key@) == Some((url@, sig@)));
            return Ok((url, sig));
        }
        assert(all.skip(j as int).drop_first() =~= all.skip(j + 1));
        j = j + 1;
    }
    Err(cat("Jean release has no artifact for ", key.as_str()))
}

// ---------------------------------------------------------------------------
// Signatures
// ---------------------------------------------------------------------------

/// What the `base64` crate's `STANDARD` engine decodes `text` to, or the
/// message of its `DecodeError`.
pub uninterp spec fn base64_standard_decoded(text: Seq<char>) -> Result<Seq<u8>, Seq<char>>;

/// What the `base64` crate's `STANDARD` engine encodes `bytes` to.
pub uninterp spec fn base64_standard_encoded(bytes: Seq<u8>) -> Seq<char>;

/// The message of `String::from_utf8`'s error for bytes that are not UTF-8.
pub uninterp spec fn utf8_error(bytes: Seq<u8>) -> Seq<char>;

/// The message of minisign's error when `text` does not decode as a public key,
/// or `None` when it does.
pub uninterp spec fn minisign_key_error(text: Seq<char>) -> Option<Seq<char>>;

/// The message of minisign's error when `text` does not decode as a signature,
/// or `None` when it does.
pub uninterp spec fn minisign_signature_error(text: Seq<char>) -> Option<Seq<char>>;

/// `base64::engine::general_purpose::STANDARD.decode`, the error kept as its
/// message. Claimed: the outcome depends on the text alone.
#[verifier::external_body]
fn base64_decode(text: &str) -> (r: Result<Vec<u8>, String>)
    ensures
        match r {
            Ok(b) => base64_standard_decoded(text@) == Ok::<Seq<u8>, Seq<char>>(b@),
            Err(e) => base64_standard_decoded(text@) == Err::<Seq<u8>, Seq<char>>(e@),
        },
{
    match base64::engine::general_purpose::STANDARD.decode(text) {
        Ok(b) => Ok(b),
        Err(e) => Err(e.to_string()),
    }
}

/// `base64::engine::general_purpose::STANDARD.encode`. Claimed: the text
/// depends on the bytes alone.
#[verifier::external_body]
fn base64_encode(bytes: &[u8]) -> (r: String)
    ensures
        r@ == base64_standard_encoded(bytes@),
{
    base64::engine::general_purpose::STANDARD.encode(bytes)
}

/// `String::from_utf8`: the text of valid UTF-8 bytes, else the error's
/// message (std documents that it fails exactly on invalid UTF-8).
#[verifier::external_body]
fn utf8_text(bytes: Vec<u8>) -> (r: Result<String, String>)
    ensures
        match r {
            Ok(s) => vstd::utf8::valid_utf8(bytes@) && s@ == vstd::utf8::decode_utf8(bytes@),
            Err(e) => !vstd::utf8::valid_utf8(bytes@) && e@ == utf8_error(bytes@),
        },
{
    match String::from_utf8(bytes) {
        Ok(s) => Ok(s),
        Err(e) => Err(e.to_string()),
    }
}

/// The decoded text of a base64 value, or why it is not one.
pub open spec fn base64_text(value: Seq<char>, label: Seq<char>) -> Result<Seq<char>, Seq<char>> {
    match base64_standard_decoded(value) {
        Err(e) => Err("Invalid "@ + label + " encoding: "@ + e),
        Ok(bytes) => if vstd::utf8::valid_utf8(bytes) {
            Ok(vstd::utf8::decode_utf8(bytes))
        } else {
            Err("Invalid "@ + label + " text: "@ + utf8_error(bytes))
        },
    }
}

/// Decodes a base64 value holding UTF-8 text; `label` names it in errors.
pub fn decode_base64_text(value: &str, label: &str) -> (r: Result<String, String>)
    ensures
        match r {
            Ok(t) => base64_text(value@, label@) == Ok::<Seq<char>, Seq<char>>(t@),
            Err(e) => base64_text(value@, label@) == Err::<Seq<char>, Seq<char>>(e@),
        },
{
    let bytes = match base64_decode(value) {
        Ok(b) => b,
        Err(e) => {
            let mut m = cat3("Invalid ", label, " encoding: ");
            m.append(e.as_str());
            return Err(m);
        },
    };
    match utf8_text(bytes) {
        Ok(t) => Ok(t),
        Err(e) => {
            let mut m = cat3("Invalid ", label, " text: ");
            m.append(e.as_str());
            Err(m)
        },
    }
}

/// The base64 (`STANDARD`) text of a string's UTF-8 bytes.
pub fn encode_base64_text(text: &str) -> (r: String)
    ensures
        r@ == base64_standard_encoded(vstd::utf8::encode_utf8(text@)),
{
    base64_encode(text.as_bytes())
}

/// What minisign reports when `text` decodes as a public key, `signature` as a
/// signature, and the key checks the signature over `bytes` (legacy,
/// non-prehashed signatures accepted when `allow_legacy`): the message of its
/// error when the signature does not verify, or `None` when it does.
pub uninterp spec fn minisign_rejection(
    text: Seq<char>,
    bytes: Seq<u8>,
    signature: Seq<char>,
    allow_legacy: bool,
) -> Option<Seq<char>>;

/// The outcome of checking a minisign signature, as plain values.
pub enum MinisignOutcome {
    /// The public key does not decode; minisign's message.
    KeyInvalid(String),
    /// The signature does not decode; minisign's message.
    SignatureInvalid(String),
    /// The signature does not verify the bytes; minisign's message.
    Rejected(String),
    /// The signature verifies the bytes.
    Verified,
}

/// `minisign_verify::PublicKey::decode` on `key_text`, then
/// `minisign_verify::Signature::decode` on `signature_text`, then
/// `PublicKey::verify` over `bytes` (legacy signatures as `allow_legacy`); each
/// error kept as its message. Claimed: each step's outcome depends on its
/// texts and bytes alone (the names above), and a later step runs only when
/// the earlier ones succeeded.
#[verifier::external_body]
fn minisign_check(key_text: &str, bytes: &[u8], signature_text: &str, allow_legacy: bool) -> (r:
    MinisignOutcome)
    ensures
        match r {
            MinisignOutcome::KeyInvalid(e) => minisign_key_error(key_text@) == Some(e@),
            MinisignOutcome::SignatureInvalid(e) => minisign_key_error(key_text@) is None
                && minisign_signature_error(signature_text@) == Some(e@),
            MinisignOutcome::Rejected(e) => minisign_key_error(key_text@) is None
                && minisign_signature_error(signature_text@) is None
                && minisign_rejection(key_text@, bytes@, signature_text@, allow_legacy) == Some(e@),
            MinisignOutcome::Verified => minisign_key_error(key_text@) is None
                && minisign_signature_error(signature_text@) is None
                && minisign_rejection(key_text@, bytes@, signature_text@, allow_legacy) is None,
        },
{
    let key = match minisign_verify::PublicKey::decode(key_text) {
        Ok(k) => k,
        Err(e) => return MinisignOutcome::KeyInvalid(e.to_string()),
    };
    let signature = match minisign_verify::Signature::decode(signature_text) {
        Ok(s) => s,
        Err(e) => return MinisignOutcome::SignatureInvalid(e.to_string()),
    };
    match key.verify(bytes, &signature, allow_legacy) {
        Ok(()) => MinisignOutcome::Verified,
        Err(e) => MinisignOutcome::Rejected(e.to_string()),
    }
}

/// Verifies a release artifact against its base64-encoded minisign signature,
/// with the updater's public key, accepting legacy signatures as the updater
/// does. The key and the signature must decode (each failure has its message);
/// then the artifact verifies, or the error carries minisign's reason.
pub fn verify_artifact(bytes: &[u8], release_signature: &str) -> (r: Result<(), String>)
    ensures
        base64_text(JEAN_UPDATER_PUBLIC_KEY@, "updater public key"@) matches Err(e) ==> (r matches Err(
            x) && x@ == e),
        base64_text(JEAN_UPDATER_PUBLIC_KEY@, "updater public key"@) matches Ok(k) ==> (
        match minisign_key_error(k) {
            Some(e) => r matches Err(x) && x@ == "Invalid updater public key: "@ + e,
            None => match base64_text(release_signature@, "release signature"@) {
                Err(e) => r matches Err(x) && x@ == e,
                Ok(s) => match minisign_signature_error(s) {
                    Some(e) => r matches Err(x) && x@ == "Invalid release signature: "@ + e,
                    None => match minisign_rejection(k, bytes@, s, true) {
                        None => r is Ok,
                        Some(e) => r matches Err(x) && x@
                            == "Jean artifact signature verification failed: "@ + e,
                    },
                },
            },
        }),
{
    let key_text = match decode_base64_text(JEAN_UPDATER_PUBLIC_KEY, "updater public key") {
        Ok(t) => t,
        Err(e) => {
            return Err(e);
        },
    };
    let signature_text = match decode_base64_text(release_signature, "release signature") {
        Ok(t) => t,
        Err(e) => {
            // The key is checked first: with no signature text to try, only
            // whether it decodes matters here.
            return match minisign_check(key_text.as_str(), bytes, "", true) {
                MinisignOutcome::KeyInvalid(k) => Err(cat("Invalid updater public key: ", k.as_str())),
                _ => Err(e),
            };
        },
    };
    match minisign_check(key_text.as_str(), bytes, signature_text.as_str(), true) {
        MinisignOutcome::KeyInvalid(e) => Err(cat("Invalid updater public key: ", e.as_str())),
        MinisignOutcome::SignatureInvalid(e) => Err(cat("Invalid release signature: ", e.as_str())),
        MinisignOutcome::Rejected(e) => Err(
            cat("Jean artifact signature verification failed: ", e.as_str()),
        ),
        MinisignOutcome::Verified => Ok(()),
    }
}

/// `s` begins with `prefix`.
pub open spec fn ends_with_prefix(s: Seq<char>, prefix: Seq<char>) -> bool {
    prefix.len() <= s.len() && s.take(prefix.len() as int) == prefix
}

// ---------------------------------------------------------------------------
// The provisioning sequence
// ---------------------------------------------------------------------------

/// What a remote command printed, and its exit status as text.
#[derive(Clone, Debug)]
pub struct ExecOutput {
    pub success: bool,
    pub stdout: String,
    pub stderr: String,
    /// The exit status as the host displays it (for example `exit status: 1`).
    pub status: String,
}

pub struct ExecOutputView {
    pub success: bool,
    pub stdout: Seq<char>,
    pub stderr: Seq<char>,
    pub status: Seq<char>,
}

impl View for ExecOutput {
    type V = ExecOutputView;

    open spec fn view(&self) -> ExecOutputView {
        ExecOutputView {
            success: self.success,
            stdout: self.stdout@,
            stderr: self.stderr@,
            status: self.status@,
        }
    }
}

/// What provisioning asks of the host next.
#[derive(Debug)]
pub enum ProvisionAction {
    /// Emit a progress event for the server.
    Progress { stage: String, message: String, percent: u8 },
    /// Emit a log line for the server.
    Log { stream: String, line: String },
    /// Run a shell command on the server over SSH, then emit its
    /// [`output_log_lines`]; answer with [`ProvisionReply::Exec`].
    Exec(String),
    /// Download the release for this architecture, choosing the artifact with
    /// [`select_release_artifact`] and checking it with [`verify_artifact`];
    /// answer with the release version.
    Download(String),
    /// Create a fresh local directory for the artifact; answer with its path.
    PrepareArtifact,
    /// Extract the AppImage from the downloaded archive into that directory.
    Extract,
    /// Make a fresh unique identifier (a v4 UUID); answer with its text.
    NewId,
    /// Copy the extracted AppImage to this path on the server.
    Upload(String),
    /// Provisioning ended (the host then removes the artifact directory).
    Finish(Result<ProvisionResult, String>),
}

/// The host's answer to a [`ProvisionAction`].
#[derive(Debug)]
pub enum ProvisionReply {
    /// Done (for progress and log events).
    Ack,
    /// The outcome of a remote command.
    Exec(Result<ExecOutput, String>),
    /// A value, or why it could not be had.
    Value(Result<String, String>),
}

pub struct ProvisionResultView {
    pub success: bool,
    pub version: Seq<char>,
    pub remote_port: u16,
    pub service_name: Seq<char>,
}

pub enum ActionView {
    Progress(Seq<char>, Seq<char>, u8),
    Log(Seq<char>, Seq<char>),
    Exec(Seq<char>),
    Download(Seq<char>),
    PrepareArtifact,
    Extract,
    NewId,
    Upload(Seq<char>),
    Finish(Result<ProvisionResultView, Seq<char>>),
}

impl View for ProvisionAction {
    type V = ActionView;

    open spec fn view(&self) -> ActionView {
        match self {
            ProvisionAction::Progress { stage, message, percent } => ActionView::Progress(
                stage@,
                message@,
                *percent,
            ),
            ProvisionAction::Log { stream, line } => ActionView::Log(stream@, line@),
            ProvisionAction::Exec(c) => ActionView::Exec(c@),
            ProvisionAction::Download(a) => ActionView::Download(a@),
            ProvisionAction::PrepareArtifact => ActionView::PrepareArtifact,
            ProvisionAction::Extract => ActionView::Extract,
            ProvisionAction::NewId => ActionView::NewId,
            ProvisionAction::Upload(p) => ActionView::Upload(p@),
            ProvisionAction::Finish(Ok(r)) => ActionView::Finish(
                Ok(
                    ProvisionResultView {
                        success: r.success,
                        version: r.version@,
                        remote_port: r.remote_port,
                        service_name: r.service_name@,
                    },
                ),
            ),
            ProvisionAction::Finish(Err(e)) => ActionView::Finish(Err(e@)),
        }
    }
}

/// The outcome of a remote command, as answered.
pub open spec fn exec_reply(r: ProvisionReply) -> Result<ExecOutputView, Seq<char>> {
    match r {
        ProvisionReply::Exec(Ok(o)) => Ok(o@),
        ProvisionReply::Exec(Err(e)) => Err(e@),
        _ => Err("The host gave no command outcome"@),
    }
}

/// A value, as answered.
pub open spec fn value_reply(r: ProvisionReply) -> Result<Seq<char>, Seq<char>> {
    match r {
        ProvisionReply::Value(Ok(v)) => Ok(v@),
        ProvisionReply::Value(Err(e)) => Err(e@),
        _ => Err("The host gave no value"@),
    }
}

/// Why a remote step failed, if it did: the error that kept the command from
/// running, or its [`failure_message`].
pub open spec fn exec_failure(r: ProvisionReply, label: Seq<char>) -> Option<Seq<char>> {
    match exec_reply(r) {
        Err(e) => Some(e),
        Ok(o) => if o.success {
            None
        } else {
            Some(failure_message(label, o.stderr, o.status))
        },
    }
}

/// The trimmed standard output of a remote command.
pub open spec fn exec_stdout(r: ProvisionReply) -> Seq<char> {
    match exec_reply(r) {
        Ok(o) => trim(o.stdout),
        Err(_) => seq![],
    }
}

/// The value answered, or nothing.
pub open spec fn value_of(r: ProvisionReply) -> Seq<char> {
    match value_reply(r) {
        Ok(v) => v,
        Err(_) => seq![],
    }
}

/// The path the AppImage is uploaded to, named with a fresh identifier.
pub open spec fn remote_temp_path(id: Seq<char>) -> Seq<char> {
    "/tmp/jean-remote-"@ + id + ".AppImage"@
}

/// The provisioning sequence: given the host's replies so far, the next action.
pub open spec fn provision_next(
    host: Seq<char>,
    username: Seq<char>,
    remote_port: u16,
    token: Seq<char>,
    replies: Seq<ProvisionReply>,
) -> ActionView {
    let n = replies.len();
    if n == 0 {
        ActionView::Progress("preparing"@, "Preparing remote server"@, 3)
    } else if n == 1 {
        ActionView::Log("system"@, "Checking dependency packages and remote privileges"@)
    } else if n == 2 {
        ActionView::Exec(dependency_script())
    } else if exec_failure(replies[2], "Dependency installation failed"@) is Some {
        ActionView::Finish(Err(exec_failure(replies[2], "Dependency installation failed"@)->0))
    } else if n == 3 {
        ActionView::Progress("detecting_architecture"@, "Detecting remote architecture"@, 18)
    } else if n == 4 {
        ActionView::Exec("uname -m"@)
    } else if exec_failure(replies[4], "Architecture detection failed"@) is Some {
        ActionView::Finish(Err(exec_failure(replies[4], "Architecture detection failed"@)->0))
    } else if n == 5 {
        ActionView::Progress("downloading_release"@, "Downloading Jean release"@, 35)
    } else if n == 6 {
        ActionView::Log("system"@, "Selecting release artifact for "@ + exec_stdout(replies[4]))
    } else if n == 7 {
        ActionView::Download(exec_stdout(replies[4]))
    } else if value_reply(replies[7]) is Err {
        ActionView::Finish(Err(value_reply(replies[7])->Err_0))
    } else if n == 8 {
        ActionView::Log("system"@, "Downloaded and verified Jean "@ + value_of(replies[7]))
    } else if n == 9 {
        ActionView::PrepareArtifact
    } else if value_reply(replies[9]) is Err {
        ActionView::Finish(Err(value_reply(replies[9])->Err_0))
    } else if n == 10 {
        ActionView::Progress("uploading_artifact"@, "Uploading Jean artifact"@, 60)
    } else if n == 11 {
        ActionView::Extract
    } else if value_reply(replies[11]) is Err {
        ActionView::Finish(Err(value_reply(replies[11])->Err_0))
    } else if n == 12 {
        ActionView::NewId
    } else if value_reply(replies[12]) is Err {
        ActionView::Finish(Err(value_reply(replies[12])->Err_0))
    } else if n == 13 {
        ActionView::Log(
            "system"@,
            "Uploading Jean "@ + value_of(replies[7]) + " to "@ + host,
        )
    } else if n == 14 {
        ActionView::Upload(remote_temp_path(value_of(replies[12])))
    } else if value_reply(replies[14]) is Err {
        ActionView::Finish(Err(value_reply(replies[14])->Err_0))
    } else if n == 15 {
        ActionView::Log("system"@, "Installing systemd service and starting Jean remote backend"@)
    } else if n == 16 {
        ActionView::Exec(
            install_script(
                remote_temp_path(value_of(replies[12])),
                value_of(replies[7]),
                base64_standard_encoded(
                    vstd::utf8::encode_utf8(systemd_unit(username, remote_port, token)),
                ),
            ),
        )
    } else if exec_failure(replies[16], "Failed to install Jean service"@) is Some {
        ActionView::Finish(Err(exec_failure(replies[16], "Failed to install Jean service"@)->0))
    } else if n == 17 {
        ActionView::Progress("verifying_service"@, "Verifying remote service"@, 90)
    } else if n == 18 {
        ActionView::Exec("systemctl is-active jean-remote.service"@)
    } else if exec_failure(replies[18], "Service verification failed"@) is Some {
        ActionView::Finish(Err(exec_failure(replies[18], "Service verification failed"@)->0))
    } else if exec_stdout(replies[18]) != "active"@ {
        ActionView::Finish(
            Err(
                "Jean remote service did not become active (status: "@ + exec_stdout(replies[18])
                    + ")"@,
            ),
        )
    } else if n == 19 {
        ActionView::Progress("complete"@, "Jean remote backend is running"@, 100)
    } else if n == 20 {
        ActionView::Log("system"@, "Jean remote backend started successfully"@)
    } else {
        ActionView::Finish(
            Ok(
                ProvisionResultView {
                    success: true,
                    version: value_of(replies[7]),
                    remote_port,
                    service_name: "jean-remote.service"@,
                },
            ),
        )
    }
}

fn exec_failure_of(r: &ProvisionReply, label: &str) -> (f: Option<String>)
    ensures
        opt_str(f) == exec_failure(*r, label@),
{
    match r {
        ProvisionReply::Exec(Ok(o)) => if o.success {
            None
        } else {
            Some(failure_text(label, o.stderr.as_str(), o.status.as_str()))
        },
        ProvisionReply::Exec(Err(e)) => Some(e.clone()),
        _ => Some(own("The host gave no command outcome")),
    }
}

fn exec_stdout_of(r: &ProvisionReply) -> (s: String)
    ensures
        s@ == exec_stdout(*r),
{
    match r {
        ProvisionReply::Exec(Ok(o)) => string_of(trimmed(chars_of(o.stdout.as_str()).as_slice()).as_slice()),
        _ => String::new(),
    }
}

fn value_error_of(r: &ProvisionReply) -> (e: Option<String>)
    ensures
        match e {
            Some(x) => value_reply(*r) == Err::<Seq<char>, Seq<char>>(x@),
            None => value_reply(*r) is Ok,
        },
{
    match r {
        ProvisionReply::Value(Ok(_)) => None,
        ProvisionReply::Value(Err(e)) => Some(e.clone()),
        _ => Some(own("The host gave no value")),
    }
}

fn value_of_reply(r: &ProvisionReply) -> (v: String)
    ensures
        v@ == value_of(*r),
{
    match r {
        ProvisionReply::Value(Ok(v)) => v.clone(),
        _ => String::new(),
    }
}

fn progress(stage: &str, message: &str, percent: u8) -> (a: ProvisionAction)
    ensures
        a@ == ActionView::Progress(stage@, message@, percent),
{
    ProvisionAction::Progress { stage: own(stage), message: own(message), percent }
}

fn log_line(line: String) -> (a: ProvisionAction)
    ensures
        a@ == ActionView::Log("system"@, line@),
{
    ProvisionAction::Log { stream: own("system"), line }
}

/// The next provisioning action for `server`, given the host's replies so far.
/// The sequence: check dependencies, detect the architecture, download and
/// verify the release, upload it, install and start the service, and check
/// that it is active; the first failure ends it with its message.
pub fn provision(server: &RemoteServerConfig, token: &str, replies: &Vec<ProvisionReply>) -> (a:
    ProvisionAction)
    ensures
        a@ == provision_next(server.host@, server.username@, server.remote_port, token@, replies@),
{
    let n = replies.len();
    if n == 0 {
        return progress("preparing", "Preparing remote server", 3);
    }
    if n == 1 {
        return log_line(own("Checking dependency packages and remote privileges"));
    }
    if n == 2 {
        return ProvisionAction::Exec(dependency_install_command());
    }
    if let Some(e) = exec_failure_of(&replies[2], "Dependency installation failed") {
        return ProvisionAction::Finish(Err(e));
    }
    if n == 3 {
        return progress("detecting_architecture", "Detecting remote architecture", 18);
    }
    if n == 4 {
        return ProvisionAction::Exec(own("uname -m"));
    }
    if let Some(e) = exec_failure_of(&replies[4], "Architecture detection failed") {
        return ProvisionAction::Finish(Err(e));
    }
    let architecture = exec_stdout_of(&replies[4]);
    if n == 5 {
        return progress("downloading_release", "Downloading Jean release", 35);
    }
    if n == 6 {
        return log_line(cat("Selecting release artifact for ", architecture.as_str()));
    }
    if n == 7 {
        return ProvisionAction::Download(architecture);
    }
    if let Some(e) = value_error_of(&replies[7]) {
        return ProvisionAction::Finish(Err(e));
    }
    let version = value_of_reply(&replies[7]);
    if n == 8 {
        return log_line(cat("Downloaded and verified Jean ", version.as_str()));
    }
    if n == 9 {
        return ProvisionAction::PrepareArtifact;
    }
    if let Some(e) = value_error_of(&replies[9]) {
        return ProvisionAction::Finish(Err(e));
    }
    if n == 10 {
        return progress("uploading_artifact", "Uploading Jean artifact", 60);
    }
    if n == 11 {
        return ProvisionAction::Extract;
    }
    if let Some(e) = value_error_of(&replies[11]) {
        return ProvisionAction::Finish(Err(e));
    }
    if n == 12 {
        return ProvisionAction::NewId;
    }
    if let Some(e) = value_error_of(&replies[12]) {
        return ProvisionAction::Finish(Err(e));
    }
    let remote_temp = cat3("/tmp/jean-remote-", value_of_reply(&replies[12]).as_str(), ".AppImage");
    if n == 13 {
        let mut line = cat3("Uploading Jean ", version.as_str(), " to ");
        line.append(server.host.as_str());
        return log_line(line);
    }
    if n == 14 {
        return ProvisionAction::Upload(remote_temp);
    }
    if let Some(e) = value_error_of(&replies[14]) {
        return ProvisionAction::Finish(Err(e));
    }
    if n == 15 {
        return log_line(own("Installing systemd service and starting Jean remote backend"));
    }
    if n == 16 {
        let unit = build_systemd_unit(server, token);
        let unit_base64 = encode_base64_text(unit.as_str());
        return ProvisionAction::Exec(
            install_command(remote_temp.as_str(), version.as_str(), unit_base64.as_str()),
        );
    }
    if let Some(e) = exec_failure_of(&replies[16], "Failed to install Jean service") {
        return ProvisionAction::Finish(Err(e));
    }
    if n == 17 {
        return progress("verifying_service", "Verifying remote service", 90);
    }
    if n == 18 {
        return ProvisionAction::Exec(own("systemctl is-active jean-remote.service"));
    }
    if let Some(e) = exec_failure_of(&replies[18], "Service verification failed") {
        return ProvisionAction::Finish(Err(e));
    }
    let active = exec_stdout_of(&replies[18]);
    if !str_eq(active.as_str(), "active") {
        let msg = cat3("Jean remote service did not become active (status: ", active.as_str(), ")");
        return ProvisionAction::Finish(Err(msg));
    }
    if n == 19 {
        return progress("complete", "Jean remote backend is running", 100);
    }
    if n == 20 {
        return log_line(own("Jean remote backend started successfully"));
    }
    ProvisionAction::Finish(
        Ok(
            ProvisionResult {
                success: true,
                version,
                remote_port: server.remote_port,
                service_name: own(SERVICE_NAME),
            },
        ),
    )
}

} // verus!
