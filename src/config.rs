//! Settings read from the environment: region and optional credentials.
use vstd::prelude::*;
use crate::text::{lines_of, split_lines, str_eq, trim_of, trimmed};

verus! {

/// Region, and credentials where they are set.
#[derive(Clone)]
pub struct Config {
    pub aws_region: String,
    pub aws_access_key_id: Option<String>,
    pub aws_secret_access_key: Option<String>,
    pub aws_session_token: Option<String>,
}

/// `Some("***REDACTED***")` for a value that is set, `None` otherwise.
pub open spec fn redacted(o: Option<String>) -> Seq<char> {
    if o is Some {
        "Some(\"***REDACTED***\")"@
    } else {
        "None"@
    }
}

/// The debug form of a configuration: the region, and no secret.
pub open spec fn debug_text(c: Config) -> Seq<char> {
    "Config { aws_region: \""@ + c.aws_region@ + "\", aws_access_key_id: "@ + redacted(
        c.aws_access_key_id,
    ) + ", aws_secret_access_key: "@ + redacted(c.aws_secret_access_key)
        + ", aws_session_token: "@ + redacted(c.aws_session_token) + " }"@
}

fn push_redacted(s: &mut String, o: &Option<String>)
    ensures
        final(s)@ == old(s)@ + redacted(*o),
{
    match o {
        Some(_) => s.append("Some(\"***REDACTED***\")"),
        None => s.append("None"),
    }
}

/// The region used where none is configured.
pub fn default_region() -> (r: String)
    ensures
        r@ == "us-east-1"@,
{
    String::from_str("us-east-1")
}

impl Config {
    /// Both the access key id and the secret access key are set.
    pub fn has_credentials(&self) -> (r: bool)
        ensures
            r == (self.aws_access_key_id is Some && self.aws_secret_access_key is Some),
    {
        self.aws_access_key_id.is_some() && self.aws_secret_access_key.is_some()
    }

    /// The default region and no credentials.
    pub fn defaults() -> (r: Config)
        ensures
            r.aws_region@ == "us-east-1"@,
            r.aws_access_key_id is None,
            r.aws_secret_access_key is None,
            r.aws_session_token is None,
    {
        Config {
            aws_region: default_region(),
            aws_access_key_id: None,
            aws_secret_access_key: None,
            aws_session_token: None,
        }
    }

    /// The configuration that was read, or the defaults where reading
    /// failed.
    pub fn or_defaults(loaded: Option<Config>) -> (r: Config)
        ensures
            loaded matches Some(c) ==> r == c,
            loaded is None ==> r.aws_region@ == "us-east-1"@ && r.aws_access_key_id is None
                && r.aws_secret_access_key is None && r.aws_session_token is None,
    {
        match loaded {
            Some(c) => c,
            None => Config::defaults(),
        }
    }

    pub open spec fn has_credentials_spec(&self) -> bool {
        self.aws_access_key_id is Some && self.aws_secret_access_key is Some
    }

    /// A description for logs that shows the region and hides every
    /// credential.
    pub fn debug_string(&self) -> (r: String)
        ensures
            r@ == debug_text(*self),
    {
        let mut r = String::from_str("Config { aws_region: \"");
        r.append(self.aws_region.as_str());
        r.append("\", aws_access_key_id: ");
        push_redacted(&mut r, &self.aws_access_key_id);
        r.append(", aws_secret_access_key: ");
        push_redacted(&mut r, &self.aws_secret_access_key);
        r.append(", aws_session_token: ");
        push_redacted(&mut r, &self.aws_session_token);
        r.append(" }");
        r
    }
}

/// The keys of one profile of a credentials file.  It has no `Debug`, which
/// would print the secret.
#[derive(Clone)]
pub struct AwsCredentials {
    pub access_key_id: String,
    pub secret_access_key: String,
    pub session_token: Option<String>,
}

/// Where a scan of a credentials file stands: the section it is in, and
/// the last value of each key seen in the wanted profile.
pub struct CredentialScan {
    pub section: Option<Seq<char>>,
    pub access_key_id: Option<Seq<char>>,
    pub secret_access_key: Option<Seq<char>>,
    pub session_token: Option<Seq<char>>,
}

/// The index of the first `=` in `s`, if any.
pub open spec fn first_equals(s: Seq<char>) -> Option<int> {
    if exists|i: int| 0 <= i < s.len() && s[i] == '=' {
        Some(choose|i: int| 0 <= i < s.len() && s[i] == '=' && forall|j: int| 0 <= j < i ==> s[j] != '=')
    } else {
        None
    }
}

/// One line of a credentials file, trimmed: blank lines and `#` comments
/// are skipped, `[name]` opens a section, and `key = value` inside the
/// wanted section records the value of a key.
pub open spec fn scan_credential_line(st: CredentialScan, line: Seq<char>, want: Seq<char>) -> CredentialScan {
    let t = trim_of(line);
    if t.len() == 0 || t[0] == '#' {
        st
    } else if t[0] == '[' && t.last() == ']' {
        CredentialScan { section: Some(t.subrange(1, t.len() - 1)), ..st }
    } else if st.section == Some(want) && first_equals(t) is Some {
        let i = first_equals(t)->0;
        let key = trim_of(t.subrange(0, i));
        let value = trim_of(t.subrange(i + 1, t.len() as int));
        if key == "aws_access_key_id"@ {
            CredentialScan { access_key_id: Some(value), ..st }
        } else if key == "aws_secret_access_key"@ {
            CredentialScan { secret_access_key: Some(value), ..st }
        } else if key == "aws_session_token"@ {
            CredentialScan { session_token: Some(value), ..st }
        } else {
            st
        }
    } else {
        st
    }
}

pub open spec fn scan_credential_lines(lines: Seq<Seq<char>>, want: Seq<char>) -> CredentialScan
    decreases lines.len(),
{
    if lines.len() == 0 {
        CredentialScan { section: None, access_key_id: None, secret_access_key: None, session_token: None }
    } else {
        scan_credential_line(scan_credential_lines(lines.drop_last(), want), lines.last(), want)
    }
}

fn find_equals(t: &str) -> (r: Option<usize>)
    ensures
        match r {
            Some(i) => i < t@.len() && first_equals(t@) == Some(i as int),
            None => first_equals(t@) is None,
        },
{
    let n = t.unicode_len();
    let mut i: usize = 0;
    while i < n
        invariant
            n == t@.len(),
            i <= n,
            forall|j: int| 0 <= j < i ==> t@[j] != '=',
        decreases n - i,
    {
        if t.get_char(i) == '=' {
            assert(forall|k: int| 0 <= k < t@.len() && t@[k] == '=' && (forall|j: int| 0 <= j < k ==> t@[j] != '=') ==> k == i);
            return Some(i);
        }
        i = i + 1;
    }
    None
}

/// Reads the keys of profile `profile_name` from the text of a
/// credentials file; fails where the access key id or the secret access
/// key is missing.
pub fn parse_credentials(content: &str, profile_name: &str) -> (r: Result<AwsCredentials, String>)
    ensures
        ({
            let st = scan_credential_lines(lines_of(content@), profile_name@);
            match (st.access_key_id, st.secret_access_key) {
                (Some(k), Some(s)) => r matches Ok(c) && c.access_key_id@ == k && c.secret_access_key@ == s
                    && crate::auth::opt_text(c.session_token) == st.session_token,
                _ => r is Err,
            }
        }),
{
    let lines = split_lines(content);
    let mut section: Option<String> = None;
    let mut access_key_id: Option<String> = None;
    let mut secret_access_key: Option<String> = None;
    let mut session_token: Option<String> = None;
    let mut i: usize = 0;
    while i < lines.len()
        invariant
            i <= lines.len(),
            crate::text::views(lines@) == lines_of(content@),
            ({
                let st = scan_credential_lines(crate::text::views(lines@).subrange(0, i as int), profile_name@);
                &&& crate::auth::opt_text(section) == st.section
                &&& crate::auth::opt_text(access_key_id) == st.access_key_id
                &&& crate::auth::opt_text(secret_access_key) == st.secret_access_key
                &&& crate::auth::opt_text(session_token) == st.session_token
            }),
        decreases lines.len() - i,
    {
        proof {
            let ls = crate::text::views(lines@);
            assert(ls.subrange(0, i + 1).drop_last() =~= ls.subrange(0, i as int));
            assert(ls.subrange(0, i + 1).last() == lines@[i as int]@);
        }
        let t = trimmed(lines[i].as_str());
        let n = t.unicode_len();
        if n == 0 || t.get_char(0) == '#' {
        } else if t.get_char(0) == '[' && t.get_char(n - 1) == ']' {
            section = Some(t.substring_char(1, n - 1).to_string());
        } else {
            let in_wanted = match &section {
                Some(p) => crate::text::str_eq(p.as_str(), profile_name),
                None => false,
            };
            if in_wanted {
                match find_equals(t) {
                    Some(eq) => {
                        let key = trimmed(t.substring_char(0, eq));
                        let value = trimmed(t.substring_char(eq + 1, n)).to_string();
                        if crate::text::str_eq(key, "aws_access_key_id") {
                            access_key_id = Some(value);
                        } else if crate::text::str_eq(key, "aws_secret_access_key") {
                            secret_access_key = Some(value);
                        } else if crate::text::str_eq(key, "aws_session_token") {
                            session_token = Some(value);
                        }
                    },
                    None => {},
                }
            }
        }
        i = i + 1;
    }
    proof {
        assert(crate::text::views(lines@).subrange(0, lines@.len() as int) =~= crate::text::views(lines@));
    }
    let mut missing = String::from_str("Profile '");
    missing.append(profile_name);
    match (access_key_id, secret_access_key) {
        (Some(k), Some(s)) => Ok(AwsCredentials { access_key_id: k, secret_access_key: s, session_token }),
        (None, _) => {
            missing.append("' missing aws_access_key_id");
            Err(missing)
        },
        (_, None) => {
            missing.append("' missing aws_secret_access_key");
            Err(missing)
        },
    }
}

/// The first index from `i` on where `p` occurs in `s`.
pub open spec fn occurrence_from(s: Seq<char>, p: Seq<char>, i: int) -> Option<int>
    decreases s.len() + 1 - i,
{
    if i < 0 || i + p.len() > s.len() {
        None
    } else if s.subrange(i, i + p.len()) == p {
        Some(i)
    } else {
        occurrence_from(s, p, i + 1)
    }
}

fn find_text(s: &str, p: &str) -> (r: Option<usize>)
    ensures
        match r {
            Some(i) => occurrence_from(s@, p@, 0) == Some(i as int) && i + p@.len() <= s@.len(),
            None => occurrence_from(s@, p@, 0) is None,
        },
{
    let n = s.unicode_len();
    let m = p.unicode_len();
    if m > n {
        return None;
    }
    if m == 0 {
        assert(s@.subrange(0, 0) =~= p@);
        return Some(0);
    }
    let mut i: usize = 0;
    while i <= n - m
        invariant
            n == s@.len(),
            m == p@.len(),
            1 <= m <= n,
            i <= n - m + 1,
            occurrence_from(s@, p@, 0) == occurrence_from(s@, p@, i as int),
        decreases n - m + 1 - i,
    {
        if str_eq(s.substring_char(i, i + m), p) {
            return Some(i);
        }
        i = i + 1;
    }
    None
}

/// `s` without the section that starts at the first occurrence of
/// `header`: up to the next line that opens a section, or to the end.
pub open spec fn without_section(s: Seq<char>, header: Seq<char>) -> Seq<char> {
    match occurrence_from(s, header, 0) {
        None => s,
        Some(start) => {
            let rest = s.subrange(start, s.len() as int);
            let end = match occurrence_from(rest, "\n["@, 0) {
                Some(k) => start + k,
                None => s.len() as int,
            };
            s.subrange(0, start) + s.subrange(end, s.len() as int)
        },
    }
}

/// `s`, ending in a newline unless it is empty.
pub open spec fn with_final_newline(s: Seq<char>) -> Seq<char> {
    if s.len() > 0 && s.last() != '\n' {
        s.push('\n')
    } else {
        s
    }
}

fn drop_section(s: &str, header: &str) -> (r: String)
    ensures
        r@ == with_final_newline(without_section(s@, header@)),
{
    let n = s.unicode_len();
    let mut out = match find_text(s, header) {
        None => s.to_string(),
        Some(start) => {
            let rest = s.substring_char(start, n);
            let end = match find_text(rest, "\n[") {
                Some(k) => start + k,
                None => n,
            };
            let mut out = s.substring_char(0, start).to_string();
            out.append(s.substring_char(end, n));
            out
        },
    };
    let len = out.as_str().unicode_len();
    if len > 0 && out.as_str().get_char(len - 1) != '\n' {
        out.append("\n");
        proof {
            reveal_strlit("\n");
        }
    }
    out
}

/// The credentials file text with the section of `profile` replaced by its
/// new keys, appended at the end.
pub open spec fn credentials_text(
    existing: Seq<char>,
    profile: Seq<char>,
    access_key_id: Seq<char>,
    secret_access_key: Seq<char>,
    session_token: Option<Seq<char>>,
) -> Seq<char> {
    let header = "["@ + profile + "]"@;
    let keys = header + "\n"@ + "aws_access_key_id = "@ + access_key_id + "\n"@
        + "aws_secret_access_key = "@ + secret_access_key + "\n"@;
    let token = match session_token {
        Some(t) => "aws_session_token = "@ + t + "\n"@,
        None => Seq::empty(),
    };
    with_final_newline(without_section(existing, header)) + keys + token + "\n"@
}

/// The header of a profile's section in the config file.
pub open spec fn config_header(profile: Seq<char>) -> Seq<char> {
    if profile == "default"@ {
        "[default]"@
    } else {
        "[profile "@ + profile + "]"@
    }
}

/// The config file text with the section of `profile` replaced by one that
/// sets its region, appended at the end.
pub open spec fn config_text(existing: Seq<char>, profile: Seq<char>, region: Seq<char>) -> Seq<char> {
    let header = config_header(profile);
    with_final_newline(without_section(existing, header)) + header + "\n"@ + "region = "@ + region
        + "\n"@ + "\n"@
}

/// The new text of a credentials file that stores the keys of `profile`.
pub fn update_credentials_text(
    existing: &str,
    profile: &str,
    access_key_id: &str,
    secret_access_key: &str,
    session_token: Option<&str>,
) -> (r: String)
    ensures
        r@ == credentials_text(
            existing@,
            profile@,
            access_key_id@,
            secret_access_key@,
            match session_token {
                Some(t) => Some(t@),
                None => None,
            },
        ),
{
    let mut header = String::from_str("[");
    header.append(profile);
    header.append("]");
    let mut r = drop_section(existing, header.as_str());
    r.append(header.as_str());
    r.append("\n");
    r.append("aws_access_key_id = ");
    r.append(access_key_id);
    r.append("\n");
    r.append("aws_secret_access_key = ");
    r.append(secret_access_key);
    r.append("\n");
    match session_token {
        Some(t) => {
            r.append("aws_session_token = ");
            r.append(t);
            r.append("\n");
        },
        None => {},
    }
    r.append("\n");
    r
}

/// The new text of a config file that sets the region of `profile`.
pub fn update_config_text(existing: &str, profile: &str, region: &str) -> (r: String)
    ensures
        r@ == config_text(existing@, profile@, region@),
{
    let header = if crate::text::str_eq(profile, "default") {
        String::from_str("[default]")
    } else {
        let mut h = String::from_str("[profile ");
        h.append(profile);
        h.append("]");
        h
    };
    let mut r = drop_section(existing, header.as_str());
    r.append(header.as_str());
    r.append("\n");
    r.append("region = ");
    r.append(region);
    r.append("\n");
    r.append("\n");
    r
}

} // verus!
