//! Identifier normalization: a wire identifier (mixed camel case, possibly
//! vendor-prefixed) becomes a deterministic snake-style name. An ordered,
//! priority-first rule table rewrites known vendor prefixes and acronym runs
//! in one left-to-right pass; a second pass inserts a separator before every
//! uppercase letter except a leading one and lowers every letter as emitted.

use vstd::prelude::*;

verus! {

/// Whether `c` is an ASCII uppercase letter.
pub open spec fn is_upper_char(c: char) -> bool {
    'A' <= c && c <= 'Z'
}

/// The ASCII lowercase form of `c`; other characters pass through.
pub open spec fn lower_char(c: char) -> char {
    if is_upper_char(c) {
        (((c as u8) + 32) as char)
    } else {
        c
    }
}

fn lower_char_exec(c: char) -> (r: char)
    ensures
        r == lower_char(c),
{
    if 'A' <= c && c <= 'Z' {
        ((c as u8) + 32) as char
    } else {
        c
    }
}

/// The rewrite rule table, in priority order: most specific vendor prefixes
/// first, longer acronyms before their substrings. One entry is duplicated;
/// it is kept as a visible, harmless no-op rather than silently dropped.
pub open spec fn rules() -> Seq<(Seq<char>, Seq<char>)> {
    seq![
        ("NewX_AVM-DE_"@, "newXAvmDe"@),
        ("NewX_AVM_DE_"@, "newXAvmDe"@),
        ("X_AVM-DE_"@, "XAvmDe"@),
        ("X_"@, "x"@),
        ("_"@, ""@),
        ("NATRSIP"@, "NatRsip"@),
        ("NAT"@, "Nat"@),
        ("RSIP"@, "Rsip"@),
        ("FCS"@, "Fcs"@),
        ("ATM"@, "Atm"@),
        ("DAV"@, "Dav"@),
        ("PPP"@, "Ppp"@),
        ("WAN"@, "Wan"@),
        ("MAC"@, "Mac"@),
        ("AIN"@, "Ain"@),
        ("DDNS"@, "Ddns"@),
        ("DNS"@, "Dns"@),
        ("IPTVo"@, "IptvO"@),
        ("IPTV"@, "Iptv"@),
        ("US"@, "Us"@),
        ("VoIP"@, "Voip"@),
        ("AVM"@, "Avm"@),
        ("URL"@, "Url"@),
        ("ATUC"@, "Atuc"@),
        ("CHECK"@, "Check"@),
        ("DSL"@, "Dsl"@),
        ("DS"@, "Ds"@),
        ("SNRG"@, "Snrg_"@),
        ("SNRMT"@, "Snrmt_"@),
        ("SNR"@, "Snr_"@),
        ("LATN"@, "Latn_"@),
        ("HEC"@, "Hec"@),
        ("TAM"@, "Tam"@),
        ("OKZ"@, "Okz"@),
        ("LKZ"@, "Lkz"@),
        ("OKZ"@, "Okz"@),
        ("STUN"@, "Stun"@),
        ("UPnP"@, "Upnp"@),
        ("FTP"@, "Ftp"@),
        ("SSL"@, "Ssl"@),
        ("SMB"@, "Smb"@),
        ("CGI"@, "Cgi"@),
        ("NTP"@, "Ntp"@),
        ("TR069"@, "Tr069"@),
        ("BSSID"@, "Bssid"@),
        ("SSID"@, "Ssid"@),
        ("SID"@, "Sid"@),
        ("UUID"@, "Uuid"@),
        ("OUI"@, "Oui"@),
        ("ATUR"@, "Atur"@),
        ("FEC"@, "Fec"@),
        ("CRC"@, "Crc"@),
        ("PSK"@, "Psk"@),
        ("WEP"@, "Wep"@),
        ("WPA"@, "Wpa"@),
        ("WLAN"@, "Wlan"@),
        ("LAN"@, "Lan"@),
        ("AP"@, "Ap"@),
        ("WPS"@, "Wps"@),
        ("RX"@, "Rx"@),
        ("WOL"@, "Wol"@),
        ("DHCP"@, "Dhcp"@),
        ("ID"@, "Id"@),
        ("IP"@, "Ip"@),
    ]
}

/// The same table as executable string pairs.
fn rule_list() -> (r: Vec<(&'static str, &'static str)>)
    ensures
        r@.len() == rules().len(),
        forall|k: int|
            0 <= k < r@.len() ==> (#[trigger] r@[k]).0@ == rules()[k].0 && r@[k].1@
                == rules()[k].1,
{
    let mut r: Vec<(&'static str, &'static str)> = Vec::new();
    r.push(("NewX_AVM-DE_", "newXAvmDe"));
    r.push(("NewX_AVM_DE_", "newXAvmDe"));
    r.push(("X_AVM-DE_", "XAvmDe"));
    r.push(("X_", "x"));
    r.push(("_", ""));
    r.push(("NATRSIP", "NatRsip"));
    r.push(("NAT", "Nat"));
    r.push(("RSIP", "Rsip"));
    r.push(("FCS", "Fcs"));
    r.push(("ATM", "Atm"));
    r.push(("DAV", "Dav"));
    r.push(("PPP", "Ppp"));
    r.push(("WAN", "Wan"));
    r.push(("MAC", "Mac"));
    r.push(("AIN", "Ain"));
    r.push(("DDNS", "Ddns"));
    r.push(("DNS", "Dns"));
    r.push(("IPTVo", "IptvO"));
    r.push(("IPTV", "Iptv"));
    r.push(("US", "Us"));
    r.push(("VoIP", "Voip"));
    r.push(("AVM", "Avm"));
    r.push(("URL", "Url"));
    r.push(("ATUC", "Atuc"));
    r.push(("CHECK", "Check"));
    r.push(("DSL", "Dsl"));
    r.push(("DS", "Ds"));
    r.push(("SNRG", "Snrg_"));
    r.push(("SNRMT", "Snrmt_"));
    r.push(("SNR", "Snr_"));
    r.push(("LATN", "Latn_"));
    r.push(("HEC", "Hec"));
    r.push(("TAM", "Tam"));
    r.push(("OKZ", "Okz"));
    r.push(("LKZ", "Lkz"));
    r.push(("OKZ", "Okz"));
    r.push(("STUN", "Stun"));
    r.push(("UPnP", "Upnp"));
    r.push(("FTP", "Ftp"));
    r.push(("SSL", "Ssl"));
    r.push(("SMB", "Smb"));
    r.push(("CGI", "Cgi"));
    r.push(("NTP", "Ntp"));
    r.push(("TR069", "Tr069"));
    r.push(("BSSID", "Bssid"));
    r.push(("SSID", "Ssid"));
    r.push(("SID", "Sid"));
    r.push(("UUID", "Uuid"));
    r.push(("OUI", "Oui"));
    r.push(("ATUR", "Atur"));
    r.push(("FEC", "Fec"));
    r.push(("CRC", "Crc"));
    r.push(("PSK", "Psk"));
    r.push(("WEP", "Wep"));
    r.push(("WPA", "Wpa"));
    r.push(("WLAN", "Wlan"));
    r.push(("LAN", "Lan"));
    r.push(("AP", "Ap"));
    r.push(("WPS", "Wps"));
    r.push(("RX", "Rx"));
    r.push(("WOL", "Wol"));
    r.push(("DHCP", "Dhcp"));
    r.push(("ID", "Id"));
    r.push(("IP", "Ip"));
    r
}

/// Whether the nonempty pattern `pat` is a prefix of `s`.
pub open spec fn is_match(pat: Seq<char>, s: Seq<char>) -> bool {
    0 < pat.len() <= s.len() && s.take(pat.len() as int) == pat
}

/// The first rule with index at least `k` whose pattern is a prefix of `s`.
pub open spec fn first_rule_from(s: Seq<char>, k: int) -> Option<int>
    decreases rules().len() - k,
{
    if k < 0 || k >= rules().len() {
        None
    } else if is_match(rules()[k].0, s) {
        Some(k)
    } else {
        first_rule_from(s, k + 1)
    }
}

/// What `first_rule_from` returns: the least matching index at or after `k`.
pub proof fn lemma_first_rule_from(s: Seq<char>, k: int)
    requires
        0 <= k,
    ensures
        match first_rule_from(s, k) {
            Some(j) => k <= j < rules().len() && is_match(rules()[j].0, s) && forall|m: int|
                k <= m < j ==> !is_match(rules()[m].0, s),
            None => forall|m: int| k <= m < rules().len() ==> !is_match(rules()[m].0, s),
        },
    decreases rules().len() - k,
{
    if k < rules().len() && !is_match(rules()[k].0, s) {
        lemma_first_rule_from(s, k + 1);
    }
}

/// One left-to-right pass of the rule table over `s`: at each position the
/// first rule whose pattern starts there fires, its replacement is emitted
/// and the pattern is skipped; positions where no rule fires are copied.
/// Emitted text is never rescanned.
pub open spec fn apply_rules(s: Seq<char>) -> Seq<char>
    decreases s.len(),
    via apply_rules_dec
{
    if s.len() == 0 {
        Seq::empty()
    } else {
        match first_rule_from(s, 0) {
            Some(k) => rules()[k].1 + apply_rules(s.skip(rules()[k].0.len() as int)),
            None => seq![s[0]] + apply_rules(s.skip(1)),
        }
    }
}

#[via_fn]
proof fn apply_rules_dec(s: Seq<char>) {
    if s.len() > 0 {
        lemma_first_rule_from(s, 0);
    }
}

/// The separator-insertion pass from position `i` on: an uppercase letter is
/// emitted as a separator plus its lowercase form, except at the very front,
/// where the separator is omitted.
pub open spec fn snake_from(s: Seq<char>, i: int) -> Seq<char>
    decreases s.len() - i,
{
    if i < 0 || i >= s.len() {
        Seq::empty()
    } else {
        let piece = if is_upper_char(s[i]) {
            if i == 0 {
                seq![lower_char(s[i])]
            } else {
                seq!['_', lower_char(s[i])]
            }
        } else {
            seq![s[i]]
        };
        piece + snake_from(s, i + 1)
    }
}

/// The full separator-insertion pass.
pub open spec fn snake_case(s: Seq<char>) -> Seq<char> {
    snake_from(s, 0)
}

/// The normalized form of a wire identifier: the rule-table pass followed by
/// the separator-insertion pass.
pub open spec fn rustify(s: Seq<char>) -> Seq<char> {
    snake_case(apply_rules(s))
}

/// Whether the pattern `pat` starts at position `pos` of `s`.
fn match_at(s: &str, pos: usize, pat: &str) -> (b: bool)
    requires
        pos <= s@.len(),
    ensures
        b == is_match(pat@, s@.skip(pos as int)),
{
    let n = s.unicode_len();
    let m = pat.unicode_len();
    if m == 0 || m > n - pos {
        return false;
    }
    let mut j: usize = 0;
    while j < m
        invariant
            j <= m,
            m == pat@.len(),
            n == s@.len(),
            0 < m <= n - pos,
            pos <= n,
            forall|t: int| 0 <= t < j ==> s@[pos + t] == pat@[t],
        decreases m - j,
    {
        if s.get_char(pos + j) != pat.get_char(j) {
            proof {
                assert(s@.skip(pos as int).take(m as int)[j as int] != pat@[j as int]);
            }
            return false;
        }
        j = j + 1;
    }
    proof {
        assert(s@.skip(pos as int).take(m as int) =~= pat@);
    }
    true
}

/// The rule-table pass, executably.
fn apply_rules_exec(s: &str) -> (r: Vec<char>)
    ensures
        r@ == apply_rules(s@),
{
    let table = rule_list();
    let n = s.unicode_len();
    let mut out: Vec<char> = Vec::new();
    let mut pos: usize = 0;
    proof {
        assert(s@.skip(0) =~= s@);
        assert(out@ + apply_rules(s@) =~= apply_rules(s@));
    }
    while pos < n
        invariant
            pos <= n,
            n == s@.len(),
            table@.len() == rules().len(),
            forall|k: int|
                0 <= k < table@.len() ==> (#[trigger] table@[k]).0@ == rules()[k].0
                    && table@[k].1@ == rules()[k].1,
            out@ + apply_rules(s@.skip(pos as int)) == apply_rules(s@),
        decreases n - pos,
    {
        let ghost rest = s@.skip(pos as int);
        let mut k: usize = 0;
        let mut fired = false;
        while k < table.len() && !fired
            invariant
                k <= table@.len(),
                table@.len() == rules().len(),
                pos <= n,
                n == s@.len(),
                rest == s@.skip(pos as int),
                forall|t: int|
                    0 <= t < table@.len() ==> (#[trigger] table@[t]).0@ == rules()[t].0
                        && table@[t].1@ == rules()[t].1,
                !fired ==> forall|m: int| 0 <= m < k ==> !is_match(rules()[m].0, rest),
                fired ==> 0 < k <= table@.len() && is_match(rules()[k - 1].0, rest)
                    && forall|m: int| 0 <= m < k - 1 ==> !is_match(rules()[m].0, rest),
            decreases table@.len() - k + (if fired { 0int } else { 1int }),
        {
            if match_at(s, pos, table[k].0) {
                fired = true;
            }
            k = k + 1;
        }
        if fired {
            let (pat, rep) = table[k - 1];
            proof {
                lemma_first_rule_from(rest, 0);
                assert(first_rule_from(rest, 0) == Some(k - 1));
            }
            let m = pat.unicode_len();
            let ghost out_before = out@;
            let mut j: usize = 0;
            while j < rep.unicode_len()
                invariant
                    j <= rep@.len(),
                    out@ == out_before + rep@.take(j as int),
                decreases rep@.len() - j,
            {
                let c = rep.get_char(j);
                out.push(c);
                proof {
                    assert(out_before + rep@.take(j + 1) =~= (out_before + rep@.take(j as int)).push(
                        rep@[j as int]));
                }
                j = j + 1;
            }
            proof {
                assert(rep@.take(rep@.len() as int) =~= rep@);
                assert(rest.skip(pat@.len() as int) =~= s@.skip(pos + pat@.len()));
                assert((out_before + rep@) + apply_rules(s@.skip(pos + pat@.len())) =~= out_before
                    + (rep@ + apply_rules(rest.skip(pat@.len() as int))));
                assert(pat@.len() <= rest.len());
            }
            pos = pos + m;
        } else {
            proof {
                lemma_first_rule_from(rest, 0);
                assert(first_rule_from(rest, 0) is None);
                assert(rest[0] == s@[pos as int]);
                assert(rest.skip(1) =~= s@.skip(pos + 1));
                assert(out@.push(rest[0]) + apply_rules(s@.skip(pos + 1)) =~= out@ + (seq![
                    rest[0],
                ] + apply_rules(rest.skip(1))));
            }
            let c = s.get_char(pos);
            out.push(c);
            pos = pos + 1;
        }
    }
    proof {
        assert(s@.skip(n as int) =~= Seq::<char>::empty());
        assert(out@ + apply_rules(Seq::<char>::empty()) =~= out@);
    }
    out
}

/// The separator-insertion pass, executably.
fn snake_case_exec(v: &Vec<char>) -> (r: Vec<char>)
    ensures
        r@ == snake_case(v@),
{
    let mut out: Vec<char> = Vec::new();
    let mut i: usize = 0;
    proof {
        assert(out@ + snake_from(v@, 0) =~= snake_from(v@, 0));
    }
    while i < v.len()
        invariant
            i <= v@.len(),
            out@ + snake_from(v@, i as int) == snake_case(v@),
        decreases v@.len() - i,
    {
        let c = v[i];
        let ghost piece: Seq<char> = if is_upper_char(v@[i as int]) {
            if i == 0 {
                seq![lower_char(v@[i as int])]
            } else {
                seq!['_', lower_char(v@[i as int])]
            }
        } else {
            seq![v@[i as int]]
        };
        let ghost out_before = out@;
        proof {
            assert((out_before + piece) + snake_from(v@, i + 1) =~= out_before + (piece
                + snake_from(v@, i + 1)));
        }
        if 'A' <= c && c <= 'Z' {
            if i != 0 {
                out.push('_');
            }
            out.push(lower_char_exec(c));
        } else {
            out.push(c);
        }
        proof {
            assert(out@ =~= out_before + piece);
        }
        i = i + 1;
    }
    proof {
        assert(snake_from(v@, v@.len() as int) =~= Seq::<char>::empty());
        assert(out@ + Seq::<char>::empty() =~= out@);
    }
    out
}

proof fn lemma_snake_from_no_upper(s: Seq<char>, i: int)
    ensures
        forall|j: int|
            0 <= j < snake_from(s, i).len() ==> !is_upper_char(#[trigger] snake_from(s, i)[j]),
    decreases s.len() - i,
{
    if !(i < 0 || i >= s.len()) {
        lemma_snake_from_no_upper(s, i + 1);
        let piece = if is_upper_char(s[i]) {
            if i == 0 {
                seq![lower_char(s[i])]
            } else {
                seq!['_', lower_char(s[i])]
            }
        } else {
            seq![s[i]]
        };
        assert forall|j: int| 0 <= j < snake_from(s, i).len() implies !is_upper_char(
            snake_from(s, i)[j],
        ) by {
            if j >= piece.len() {
                assert(snake_from(s, i)[j] == snake_from(s, i + 1)[j - piece.len()]);
            }
        }
    }
}

/// Normalization is pure and deterministic, and its result holds no ASCII
/// uppercase letter.
pub proof fn lemma_rustify_no_upper(s: Seq<char>)
    ensures
        forall|j: int| 0 <= j < rustify(s).len() ==> !is_upper_char(#[trigger] rustify(s)[j]),
{
    lemma_snake_from_no_upper(apply_rules(s), 0);
}

/// Equal wire identifiers normalize to equal names: the result is a function
/// of the input characters alone.
pub proof fn lemma_rustify_deterministic(a: Seq<char>, b: Seq<char>)
    requires
        a == b,
    ensures
        rustify(a) == rustify(b),
{
}

/// Whether `c` is an ASCII digit.
pub open spec fn is_digit_char(c: char) -> bool {
    '0' <= c && c <= '9'
}

proof fn lemma_rule_shape(k: int)
    requires
        0 <= k < rules().len(),
    ensures
        rules()[k].0.len() > 0,
        rules()[k].1.len() == 0 ==> rules()[k].0 == "_"@,
        rules()[k].1.len() > 0 ==> !is_digit_char(rules()[k].1[0]),
{
    reveal_strlit("NewX_AVM-DE_");
    reveal_strlit("NewX_AVM_DE_");
    reveal_strlit("newXAvmDe");
    reveal_strlit("X_AVM-DE_");
    reveal_strlit("XAvmDe");
    reveal_strlit("X_");
    reveal_strlit("x");
    reveal_strlit("_");
    reveal_strlit("");
    reveal_strlit("NATRSIP");
    reveal_strlit("NatRsip");
    reveal_strlit("NAT");
    reveal_strlit("Nat");
    reveal_strlit("RSIP");
    reveal_strlit("Rsip");
    reveal_strlit("FCS");
    reveal_strlit("Fcs");
    reveal_strlit("ATM");
    reveal_strlit("Atm");
    reveal_strlit("DAV");
    reveal_strlit("Dav");
    reveal_strlit("PPP");
    reveal_strlit("Ppp");
    reveal_strlit("WAN");
    reveal_strlit("Wan");
    reveal_strlit("MAC");
    reveal_strlit("Mac");
    reveal_strlit("AIN");
    reveal_strlit("Ain");
    reveal_strlit("DDNS");
    reveal_strlit("Ddns");
    reveal_strlit("DNS");
    reveal_strlit("Dns");
    reveal_strlit("IPTVo");
    reveal_strlit("IptvO");
    reveal_strlit("IPTV");
    reveal_strlit("Iptv");
    reveal_strlit("US");
    reveal_strlit("Us");
    reveal_strlit("VoIP");
    reveal_strlit("Voip");
    reveal_strlit("AVM");
    reveal_strlit("Avm");
    reveal_strlit("URL");
    reveal_strlit("Url");
    reveal_strlit("ATUC");
    reveal_strlit("Atuc");
    reveal_strlit("CHECK");
    reveal_strlit("Check");
    reveal_strlit("DSL");
    reveal_strlit("Dsl");
    reveal_strlit("DS");
    reveal_strlit("Ds");
    reveal_strlit("SNRG");
    reveal_strlit("Snrg_");
    reveal_strlit("SNRMT");
    reveal_strlit("Snrmt_");
    reveal_strlit("SNR");
    reveal_strlit("Snr_");
    reveal_strlit("LATN");
    reveal_strlit("Latn_");
    reveal_strlit("HEC");
    reveal_strlit("Hec");
    reveal_strlit("TAM");
    reveal_strlit("Tam");
    reveal_strlit("OKZ");
    reveal_strlit("Okz");
    reveal_strlit("LKZ");
    reveal_strlit("Lkz");
    reveal_strlit("STUN");
    reveal_strlit("Stun");
    reveal_strlit("UPnP");
    reveal_strlit("Upnp");
    reveal_strlit("FTP");
    reveal_strlit("Ftp");
    reveal_strlit("SSL");
    reveal_strlit("Ssl");
    reveal_strlit("SMB");
    reveal_strlit("Smb");
    reveal_strlit("CGI");
    reveal_strlit("Cgi");
    reveal_strlit("NTP");
    reveal_strlit("Ntp");
    reveal_strlit("TR069");
    reveal_strlit("Tr069");
    reveal_strlit("BSSID");
    reveal_strlit("Bssid");
    reveal_strlit("SSID");
    reveal_strlit("Ssid");
    reveal_strlit("SID");
    reveal_strlit("Sid");
    reveal_strlit("UUID");
    reveal_strlit("Uuid");
    reveal_strlit("OUI");
    reveal_strlit("Oui");
    reveal_strlit("ATUR");
    reveal_strlit("Atur");
    reveal_strlit("FEC");
    reveal_strlit("Fec");
    reveal_strlit("CRC");
    reveal_strlit("Crc");
    reveal_strlit("PSK");
    reveal_strlit("Psk");
    reveal_strlit("WEP");
    reveal_strlit("Wep");
    reveal_strlit("WPA");
    reveal_strlit("Wpa");
    reveal_strlit("WLAN");
    reveal_strlit("Wlan");
    reveal_strlit("LAN");
    reveal_strlit("Lan");
    reveal_strlit("AP");
    reveal_strlit("Ap");
    reveal_strlit("WPS");
    reveal_strlit("Wps");
    reveal_strlit("RX");
    reveal_strlit("Rx");
    reveal_strlit("WOL");
    reveal_strlit("Wol");
    reveal_strlit("DHCP");
    reveal_strlit("Dhcp");
    reveal_strlit("ID");
    reveal_strlit("Id");
    reveal_strlit("IP");
    reveal_strlit("Ip");
}

/// A normalized identifier never starts with a digit, provided the wire
/// identifier itself starts with neither a digit nor an underscore. (An
/// identifier such as `_3rd` normalizes to one that does start with a
/// digit, since leading underscores are dropped.)
pub proof fn lemma_rustify_no_digit_start(s: Seq<char>)
    requires
        s.len() > 0,
        !is_digit_char(s[0]),
        s[0] != '_',
    ensures
        rustify(s).len() > 0,
        !is_digit_char(rustify(s)[0]),
{
    lemma_first_rule_from(s, 0);
    let ap = apply_rules(s);
    match first_rule_from(s, 0) {
        Some(k) => {
            lemma_rule_shape(k);
            if rules()[k].1.len() == 0 {
                reveal_strlit("_");
                assert(s.take(1) == "_"@);
                assert(s.take(1)[0] == s[0]);
                assert(s[0] == '_');
            }
            assert(ap[0] == rules()[k].1[0]);
            assert(!is_digit_char(ap[0]));
        },
        None => {
            assert(ap[0] == s[0]);
        },
    }
    assert(ap.len() > 0);
    let piece = if is_upper_char(ap[0]) {
        seq![lower_char(ap[0])]
    } else {
        seq![ap[0]]
    };
    assert(rustify(s) == piece + snake_from(ap, 1));
    assert(rustify(s)[0] == piece[0]);
    assert(!is_digit_char(piece[0]));
}

/// The normalized form of `input`, executably.
pub(crate) fn rustify_exec(input: &str) -> (r: String)
    ensures
        r@ == rustify(input@),
{
    let rewritten = apply_rules_exec(input);
    let snaked = snake_case_exec(&rewritten);
    crate::text::chars_to_string(&snaked)
}

} // verus!
