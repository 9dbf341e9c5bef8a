//! Per-line parsing of the deployment's key-value configuration text: the
//! inverter's address and serial, the shutdown-target hosts, the webhook
//! endpoint, and the power-on-capable hosts. Callers read the file and
//! split it into lines; every decision about a line's meaning is made
//! here.

use vstd::prelude::*;
use vstd::string::{StrSliceExecFns, StringExecFns};
use crate::alert::{AlertConfig, IdracServer};
use crate::parse::find_char_from;

verus! {

/// The whitespace characters trimmed from configuration lines.
pub open spec fn is_space(c: char) -> bool {
    c == ' ' || c == '\t' || c == '\n' || c == '\r' || c as u32 == 11 || c as u32 == 12
}

/// `s` without its leading run of whitespace.
pub open spec fn trim_leading(s: Seq<char>) -> Seq<char>
    decreases s.len(),
{
    if s.len() > 0 && is_space(s[0]) {
        trim_leading(s.subrange(1, s.len() as int))
    } else {
        s
    }
}

/// `s` without its trailing run of whitespace.
pub open spec fn trim_trailing(s: Seq<char>) -> Seq<char>
    decreases s.len(),
{
    if s.len() > 0 && is_space(s.last()) {
        trim_trailing(s.drop_last())
    } else {
        s
    }
}

/// `s` without leading and trailing whitespace.
pub open spec fn spec_trim(s: Seq<char>) -> Seq<char> {
    trim_trailing(trim_leading(s))
}

/// Does `s` begin with `p`?
pub open spec fn spec_starts_with(s: Seq<char>, p: Seq<char>) -> bool {
    p.len() <= s.len() && s.subrange(0, p.len() as int) == p
}

/// `s` without its leading repetitions of `p`.
pub open spec fn spec_strip_prefix_repeated(s: Seq<char>, p: Seq<char>) -> Seq<char>
    decreases s.len(),
{
    if p.len() > 0 && spec_starts_with(s, p) {
        spec_strip_prefix_repeated(s.subrange(p.len() as int, s.len() as int), p)
    } else {
        s
    }
}

/// The code point of `c` with an upper-case ASCII letter folded to lower
/// case.
pub open spec fn lower_u(c: char) -> int {
    if 65 <= c as u32 <= 90 {
        c as u32 + 32
    } else {
        c as u32 as int
    }
}

/// Does `s` spell `true`, ASCII case-insensitively?
pub open spec fn spec_is_true(s: Seq<char>) -> bool {
    s.len() == 4 && lower_u(s[0]) == 116 && lower_u(s[1]) == 114 && lower_u(s[2]) == 117
        && lower_u(s[3]) == 101
}

/// `s` split at every `c`; always at least one part, parts may be empty.
pub open spec fn spec_split(s: Seq<char>, c: char) -> Seq<Seq<char>>
    decreases s.len(),
{
    let d = find_char_from(s, c, 0);
    if 0 <= d < s.len() {
        seq![s.subrange(0, d)] + spec_split(s.subrange(d + 1, s.len() as int), c)
    } else {
        seq![s]
    }
}

/// What one secrets line does to the inverter address and serial: the
/// part before the first `=` names the key, the part after is the value,
/// both trimmed; unknown keys change nothing.
pub open spec fn spec_secrets_update(ip: Seq<char>, serial: Seq<char>, line: Seq<char>) -> (
    Seq<char>,
    Seq<char>,
) {
    let e = find_char_from(line, '=', 0);
    if e == line.len() {
        (ip, serial)
    } else {
        let key = spec_trim(line.subrange(0, e));
        let value = spec_trim(line.subrange(e + 1, line.len() as int));
        if key == "INVERTER_IP"@ {
            (value, serial)
        } else if key == "SERIAL"@ {
            (ip, value)
        } else {
            (ip, serial)
        }
    }
}

/// Mathematical model of an [`AlertConfig`].
#[verifier::ext_equal]
pub ghost struct ConfigModel {
    pub servers: Seq<Seq<char>>,
    pub webhook: Seq<char>,
    pub idrac_enabled: bool,
    pub idrac: Seq<(Seq<char>, Seq<char>, Seq<char>)>,
}

/// The model of a configuration value.
pub open spec fn config_model(c: AlertConfig) -> ConfigModel {
    ConfigModel {
        servers: c.servers@.map_values(|s: String| s@),
        webhook: c.discord_webhook_url@,
        idrac_enabled: c.idrac_enabled,
        idrac: c.idrac_servers@.map_values(|h: IdracServer| (h.ip@, h.username@, h.password@)),
    }
}

/// What one configuration line does: after trimming, a `SERVER=` line
/// appends a shutdown host, `DISCORD_WEBHOOK=` replaces the webhook,
/// `HAVE_IDRAC=` switches power-on support, and `IDRAC_SERVER=` with
/// exactly three comma-separated fields appends a power-on host. A
/// line's key prefix is stripped repeatedly, so a value cannot itself
/// begin with the key.
pub open spec fn spec_config_update(m: ConfigModel, line: Seq<char>) -> ConfigModel {
    let t = spec_trim(line);
    if spec_starts_with(t, "SERVER="@) {
        ConfigModel {
            servers: m.servers.push(spec_strip_prefix_repeated(t, "SERVER="@)),
            webhook: m.webhook,
            idrac_enabled: m.idrac_enabled,
            idrac: m.idrac,
        }
    } else if spec_starts_with(t, "DISCORD_WEBHOOK="@) {
        ConfigModel {
            servers: m.servers,
            webhook: spec_strip_prefix_repeated(t, "DISCORD_WEBHOOK="@),
            idrac_enabled: m.idrac_enabled,
            idrac: m.idrac,
        }
    } else if spec_starts_with(t, "HAVE_IDRAC="@) {
        ConfigModel {
            servers: m.servers,
            webhook: m.webhook,
            idrac_enabled: spec_is_true(spec_strip_prefix_repeated(t, "HAVE_IDRAC="@)),
            idrac: m.idrac,
        }
    } else if spec_starts_with(t, "IDRAC_SERVER="@) {
        let rest = spec_strip_prefix_repeated(t, "IDRAC_SERVER="@);
        let parts = spec_split(rest, ',');
        if parts.len() == 3 {
            ConfigModel {
                servers: m.servers,
                webhook: m.webhook,
                idrac_enabled: m.idrac_enabled,
                idrac: m.idrac.push((parts[0], parts[1], parts[2])),
            }
        } else {
            m
        }
    } else {
        m
    }
}

fn space_at(s: &str, i: usize) -> (r: bool)
    requires
        i < s@.len(),
    ensures
        r == is_space(s@[i as int]),
{
    let c = s.get_char(i);
    let u = c as u32;
    c == ' ' || c == '\t' || c == '\n' || c == '\r' || u == 11 || u == 12
}

/// First position of `c` at or after `from`, or the length.
pub fn find_char(s: &str, c: char, from: usize) -> (r: usize)
    requires
        from <= s@.len(),
    ensures
        r as int == find_char_from(s@, c, from as int),
        from <= r <= s@.len(),
        r < s@.len() ==> s@[r as int] == c,
{
    let n = s.unicode_len();
    let mut i = from;
    while i < n && s.get_char(i) != c
        invariant
            from <= i <= n,
            n == s@.len(),
            find_char_from(s@, c, from as int) == find_char_from(s@, c, i as int),
            forall|j: int| from <= j < i ==> s@[j] != c,
        decreases n - i,
    {
        i += 1;
    }
    i
}

proof fn lemma_trim_leading_range(s: Seq<char>, lo: int)
    requires
        0 <= lo <= s.len(),
        forall|k: int| 0 <= k < lo ==> is_space(s[k]),
        lo < s.len() ==> !is_space(s[lo]),
    ensures
        trim_leading(s) == s.subrange(lo, s.len() as int),
    decreases s.len(),
{
    if s.len() > 0 && is_space(s[0]) {
        assert(lo > 0);
        let t = s.subrange(1, s.len() as int);
        assert(forall|k: int| 0 <= k < lo - 1 ==> t[k] == s[k + 1]);
        lemma_trim_leading_range(t, lo - 1);
        assert(t.subrange(lo - 1, t.len() as int) =~= s.subrange(lo, s.len() as int));
    } else {
        assert(lo == 0);
        assert(s.subrange(0, s.len() as int) =~= s);
    }
}

proof fn lemma_trim_trailing_range(s: Seq<char>, hi: int)
    requires
        0 <= hi <= s.len(),
        forall|k: int| hi <= k < s.len() ==> is_space(s[k]),
        hi > 0 ==> !is_space(s[hi - 1]),
    ensures
        trim_trailing(s) == s.subrange(0, hi),
    decreases s.len(),
{
    if s.len() > 0 && is_space(s.last()) {
        assert(hi < s.len());
        let t = s.drop_last();
        lemma_trim_trailing_range(t, hi);
        assert(t.subrange(0, hi) =~= s.subrange(0, hi));
    } else {
        assert(hi == s.len());
        assert(s.subrange(0, hi) =~= s);
    }
}

/// The characters of `s` between `from` and `to`, trimmed.
pub fn trim_substring(s: &str, from: usize, to: usize) -> (t: String)
    requires
        from <= to <= s@.len(),
    ensures
        t@ == spec_trim(s@.subrange(from as int, to as int)),
{
    let ghost w = s@.subrange(from as int, to as int);
    let mut lo = from;
    while lo < to && space_at(s, lo)
        invariant
            from <= lo <= to <= s@.len(),
            forall|k: int| from <= k < lo ==> is_space(s@[k]),
        decreases to - lo,
    {
        lo += 1;
    }
    let mut hi = to;
    while hi > lo && space_at(s, hi - 1)
        invariant
            lo <= hi <= to <= s@.len(),
            forall|k: int| hi <= k < to ==> is_space(s@[k]),
        decreases hi,
    {
        hi -= 1;
    }
    proof {
        assert(forall|k: int| 0 <= k < w.len() ==> w[k] == s@[from + k]);
        lemma_trim_leading_range(w, lo - from);
        let u = w.subrange(lo - from, w.len() as int);
        assert(forall|k: int| 0 <= k < u.len() ==> u[k] == s@[lo + k]);
        lemma_trim_trailing_range(u, hi - lo);
        assert(u.subrange(0, hi - lo) =~= s@.subrange(lo as int, hi as int));
    }
    s.substring_char(lo, hi).to_owned()
}

/// Does the region of `s` starting at `at` hold `p`?
fn region_matches(s: &str, at: usize, p: &str) -> (r: bool)
    requires
        at <= s@.len(),
    ensures
        r == (at + p@.len() <= s@.len() && s@.subrange(
            at as int,
            at as int + p@.len() as int,
        ) == p@),
{
    let n = s.unicode_len();
    let m = p.unicode_len();
    if m > n - at {
        return false;
    }
    let mut i: usize = 0;
    while i < m
        invariant
            i <= m,
            m == p@.len(),
            n == s@.len(),
            at + m <= n,
            forall|k: int| 0 <= k < i ==> s@[at + k] == p@[k],
        decreases m - i,
    {
        if s.get_char(at + i) != p.get_char(i) {
            return false;
        }
        i += 1;
    }
    proof {
        assert(s@.subrange(at as int, at as int + p@.len() as int) =~= p@);
    }
    true
}

/// Where the leading repetitions of `p` in `s` end.
fn strip_prefix_repeated_start(s: &str, p: &str) -> (pos: usize)
    requires
        p@.len() > 0,
    ensures
        pos <= s@.len(),
        spec_strip_prefix_repeated(s@, p@) == s@.subrange(pos as int, s@.len() as int),
{
    let n = s.unicode_len();
    let m = p.unicode_len();
    let mut pos: usize = 0;
    proof {
        assert(s@.subrange(0, n as int) =~= s@);
    }
    while region_matches(s, pos, p)
        invariant
            pos <= n,
            n == s@.len(),
            m == p@.len(),
            m > 0,
            spec_strip_prefix_repeated(s@, p@) == spec_strip_prefix_repeated(
                s@.subrange(pos as int, n as int),
                p@,
            ),
        decreases n - pos,
    {
        proof {
            let u = s@.subrange(pos as int, n as int);
            assert(u.subrange(0, p@.len() as int) =~= s@.subrange(
                pos as int,
                pos as int + p@.len() as int,
            ));
            assert(spec_starts_with(u, p@));
            assert(u.subrange(p@.len() as int, u.len() as int) =~= s@.subrange(
                pos as int + p@.len() as int,
                n as int,
            ));
        }
        pos += m;
    }
    proof {
        let u = s@.subrange(pos as int, n as int);
        if spec_starts_with(u, p@) {
            assert(u.subrange(0, p@.len() as int) =~= s@.subrange(
                pos as int,
                pos as int + p@.len() as int,
            ));
            assert(false);
        }
        assert(s@.subrange(pos as int, n as int) =~= u);
    }
    pos
}

fn is_true_label(s: &str) -> (r: bool)
    ensures
        r == spec_is_true(s@),
{
    let n = s.unicode_len();
    if n != 4 {
        return false;
    }
    let l0 = lower_char(s, 0);
    let l1 = lower_char(s, 1);
    let l2 = lower_char(s, 2);
    let l3 = lower_char(s, 3);
    l0 == 116 && l1 == 114 && l2 == 117 && l3 == 101
}

fn lower_char(s: &str, i: usize) -> (r: u32)
    requires
        i < s@.len(),
    ensures
        r == lower_u(s@[i as int]),
{
    let u = s.get_char(i) as u32;
    if 65 <= u && u <= 90 {
        u + 32
    } else {
        u
    }
}

proof fn lemma_find_in_subrange(s: Seq<char>, c: char, a: int, k: int)
    requires
        0 <= a <= s.len(),
        0 <= k <= s.len() - a,
    ensures
        find_char_from(s.subrange(a, s.len() as int), c, k) == find_char_from(s, c, a + k) - a,
    decreases s.len() - a - k,
{
    let u = s.subrange(a, s.len() as int);
    if k < u.len() {
        assert(u[k] == s[a + k]);
        if u[k] != c {
            lemma_find_in_subrange(s, c, a, k + 1);
        }
    }
}

/// The three comma-separated fields of `s`, when it has exactly three.
pub fn split3(s: &str) -> (r: Option<(String, String, String)>)
    ensures
        ({
            let parts = spec_split(s@, ',');
            match r {
                Option::Some(t) => parts.len() == 3 && t.0@ == parts[0] && t.1@ == parts[1]
                    && t.2@ == parts[2],
                Option::None => parts.len() != 3,
            }
        }),
{
    proof {
        reveal_with_fuel(spec_split, 6);
    }
    let ghost parts = spec_split(s@, ',');
    let n = s.unicode_len();
    let d1 = find_char(s, ',', 0);
    if d1 == n {
        proof {
            assert(parts.len() == 1);
        }
        return None;
    }
    let ghost u1 = s@.subrange(d1 as int + 1, n as int);
    proof {
        lemma_find_in_subrange(s@, ',', d1 as int + 1, 0);
    }
    let d2 = find_char(s, ',', d1 + 1);
    if d2 == n {
        proof {
            assert(find_char_from(u1, ',', 0) == u1.len());
            assert(spec_split(u1, ',') == seq![u1]);
            assert(parts.len() == 2);
        }
        return None;
    }
    let ghost p1 = u1.subrange(0, d2 - d1 - 1);
    let ghost u2 = s@.subrange(d2 as int + 1, n as int);
    proof {
        assert(u1.subrange(d2 - d1, u1.len() as int) =~= u2);
        lemma_find_in_subrange(s@, ',', d2 as int + 1, 0);
    }
    let d3 = find_char(s, ',', d2 + 1);
    if d3 < n {
        proof {
            let ghost u3 = u2.subrange(d3 - d2, u2.len() as int);
            assert(spec_split(u2, ',').len() == 1 + spec_split(u3, ',').len());
            assert(spec_split(u3, ',').len() >= 1);
            assert(parts.len() >= 4);
        }
        return None;
    }
    proof {
        assert(find_char_from(u2, ',', 0) == u2.len());
        assert(spec_split(u2, ',') == seq![u2]);
        assert(parts.len() == 3);
        assert(parts[0] == s@.subrange(0, d1 as int));
        assert(p1 =~= s@.subrange(d1 as int + 1, d2 as int));
        assert(parts[1] == p1);
        assert(parts[2] == u2);
    }
    let a = s.substring_char(0, d1).to_owned();
    let b = s.substring_char(d1 + 1, d2).to_owned();
    let c = s.substring_char(d2 + 1, n).to_owned();
    Some((a, b, c))
}

/// Fold one configuration line into the configuration read so far.
pub fn config_update(cfg: AlertConfig, line: &str) -> (r: AlertConfig)
    ensures
        config_model(r) == spec_config_update(config_model(cfg), line@),
{
    let ghost m0 = config_model(cfg);
    let n = line.unicode_len();
    proof {
        reveal_strlit("SERVER=");
        reveal_strlit("DISCORD_WEBHOOK=");
        reveal_strlit("HAVE_IDRAC=");
        reveal_strlit("IDRAC_SERVER=");
        assert(line@.subrange(0, n as int) =~= line@);
    }
    let t = trim_substring(line, 0, n);
    let ts = t.as_str();
    let tn = ts.unicode_len();
    let mut cfg = cfg;
    if region_matches(ts, 0, "SERVER=") {
        let pos = strip_prefix_repeated_start(ts, "SERVER=");
        let v = ts.substring_char(pos, tn).to_owned();
        cfg.servers.push(v);
        proof {
            assert(config_model(cfg).servers =~~= spec_config_update(m0, line@).servers);
            assert(config_model(cfg) =~~= spec_config_update(m0, line@));
        }
    } else if region_matches(ts, 0, "DISCORD_WEBHOOK=") {
        let pos = strip_prefix_repeated_start(ts, "DISCORD_WEBHOOK=");
        cfg.discord_webhook_url = ts.substring_char(pos, tn).to_owned();
        proof {
            assert(config_model(cfg) =~~= spec_config_update(m0, line@));
        }
    } else if region_matches(ts, 0, "HAVE_IDRAC=") {
        let pos = strip_prefix_repeated_start(ts, "HAVE_IDRAC=");
        let flag = ts.substring_char(pos, tn);
        cfg.idrac_enabled = is_true_label(flag);
        proof {
            assert(config_model(cfg) =~~= spec_config_update(m0, line@));
        }
    } else if region_matches(ts, 0, "IDRAC_SERVER=") {
        let pos = strip_prefix_repeated_start(ts, "IDRAC_SERVER=");
        let rest = ts.substring_char(pos, tn);
        match split3(rest) {
            Option::Some((ip, username, password)) => {
                cfg.idrac_servers.push(IdracServer { ip, username, password });
                proof {
                    assert(config_model(cfg).idrac =~~= spec_config_update(m0, line@).idrac);
                    assert(config_model(cfg) =~~= spec_config_update(m0, line@));
                }
            },
            Option::None => {
                proof {
                    assert(config_model(cfg) =~~= spec_config_update(m0, line@));
                }
            },
        }
    } else {
        proof {
            assert(config_model(cfg) =~~= spec_config_update(m0, line@));
        }
    }
    cfg
}

/// Fold one secrets line into the inverter address and serial read so
/// far: later assignments win, unknown keys change nothing.
pub fn secrets_update(ip: String, serial: String, line: &str) -> (r: (String, String))
    ensures
        r.0@ == spec_secrets_update(ip@, serial@, line@).0,
        r.1@ == spec_secrets_update(ip@, serial@, line@).1,
{
    let n = line.unicode_len();
    let e = find_char(line, '=', 0);
    if e == n {
        return (ip, serial);
    }
    let key = trim_substring(line, 0, e);
    let value = trim_substring(line, e + 1, n);
    let ikey: String = "INVERTER_IP".to_owned();
    let skey: String = "SERIAL".to_owned();
    if key == ikey {
        (value, serial)
    } else if key == skey {
        (ip, value)
    } else {
        (ip, serial)
    }
}

} // verus!
