//! Settings that the process reads from its environment.
//!
//! Each function takes the raw value of a variable, `None` where it is unset.

use vstd::prelude::*;
use vstd::string::*;

use crate::sorted::texts;
use crate::sorted::SortedSet;
use crate::text::ascii_lowercase;
use crate::text::before_first;
use crate::text::chars_of;
use crate::text::find;
use crate::text::find_text;
use crate::text::is_white_space;
use crate::text::lemma_before_first;
use crate::text::lemma_find_from;
use crate::text::lemma_trim_back_last;
use crate::text::lemma_trim_front_first;
use crate::text::lower;
use crate::text::lowercase;
use crate::text::occurs_at;
use crate::text::parse_signed;
use crate::text::parse_unsigned;
use crate::text::pieces;
use crate::text::same_text;
use crate::text::signed_value;
use crate::text::split_text;
use crate::text::text_before;
use crate::text::trim;
use crate::text::trim_back;
use crate::text::trim_both;
use crate::text::trim_end_of;
use crate::text::trim_front;
use crate::text::trimmed;
use crate::text::unsigned_value;
use crate::text::white_space;
use crate::text::Trim;

verus! {

pub open spec fn says_no(v: Seq<char>) -> bool {
    v == "0"@ || v == "false"@ || v == "off"@ || v == "no"@
}

pub open spec fn says_yes(v: Seq<char>) -> bool {
    v == "1"@ || v == "true"@ || v == "on"@ || v == "yes"@
}

/// A switch: the words for no and yes, in any case of letters, and otherwise
/// the default.
pub fn env_bool(value: Option<&str>, default: bool) -> (r: bool)
    ensures
        match value {
            None => r == default,
            Some(v) => {
                let word = lowercase(trimmed(v@));
                r == if says_no(word) {
                    false
                } else if says_yes(word) {
                    true
                } else {
                    default
                }
            },
        },
{
    match value {
        None => default,
        Some(v) => {
            let owned = ascii_lowercase(trim(v).as_str());
            let word = owned.as_str();
            if same_text(word, "0") || same_text(word, "false") || same_text(word, "off")
                || same_text(word, "no") {
                false
            } else if same_text(word, "1") || same_text(word, "true") || same_text(word, "on")
                || same_text(word, "yes") {
                true
            } else {
                default
            }
        },
    }
}

/// The number that a setting writes, where it fits.
pub open spec fn setting_number(value: Option<&str>, limit: int) -> Option<int> {
    match value {
        Some(v) => match unsigned_value(trimmed(v@)) {
            Some(n) if n <= limit => Some(n as int),
            _ => None,
        },
        None => None,
    }
}

/// How many seconds an action may take: as set, and otherwise five.
pub fn env_timeout(value: Option<&str>) -> (r: u64)
    ensures
        r == (match setting_number(value, u64::MAX as int) {
            Some(n) => n,
            None => 5,
        }),
{
    match value {
        Some(v) => match parse_unsigned(trim(v).as_str()) {
            Some(n) => n,
            None => 5,
        },
        None => 5,
    }
}

/// A positive number: as set, and otherwise the default.
pub fn env_usize(value: Option<&str>, default: usize) -> (r: usize)
    ensures
        r == (match setting_number(value, usize::MAX as int) {
            Some(n) if n > 0 => n,
            _ => default as int,
        }),
{
    match value {
        Some(v) => match parse_unsigned(trim(v).as_str()) {
            Some(n) => {
                if n > 0 && n <= usize::MAX as u64 {
                    n as usize
                } else {
                    default
                }
            },
            None => default,
        },
        None => default,
    }
}

/// How many entity states are cached: as set, and otherwise ten thousand.
pub fn state_cache_budget(value: Option<&str>) -> (r: usize)
    ensures
        r == (match setting_number(value, usize::MAX as int) {
            Some(n) if n > 0 => n,
            _ => 10_000,
        }),
        r > 0,
{
    env_usize(value, 10_000)
}

/// After how many idle seconds an actor is passivated: as set, where that is a
/// positive number, and otherwise after five minutes.
pub fn actor_idle_timeout_secs(value: Option<&str>) -> (r: i64)
    ensures
        r == (match value {
            Some(v) => match signed_value(trimmed(v@)) {
                Some(n) if 0 < n <= i64::MAX => n,
                _ => 300,
            },
            None => 300,
        }),
        r > 0,
{
    match value {
        Some(v) => match parse_signed(trim(v).as_str()) {
            Some(n) => {
                if n > 0 {
                    n
                } else {
                    300
                }
            },
            None => 300,
        },
        None => 300,
    }
}

// ---------------------------------------------------------------------------
// Local hosts
// ---------------------------------------------------------------------------

/// What follows the scheme in `s`, or all of `s`.
pub open spec fn without_scheme(s: Seq<char>) -> Seq<char> {
    match find(s, "://"@) {
        Some(i) => s.skip(i + 3),
        None => s,
    }
}

/// The authority part of an address.
pub open spec fn authority(raw: Seq<char>) -> Seq<char> {
    trimmed(before_first(without_scheme(trim_back(trimmed(raw), Trim::Only('/'))), '/'))
}

/// The host in an authority, without brackets and port.
pub open spec fn bare_host(authority: Seq<char>) -> Seq<char> {
    if authority.len() > 0 && authority[0] == '[' {
        before_first(authority.drop_first(), ']')
    } else {
        before_first(authority, ':')
    }
}

/// The host that an address names, in its normal form.
pub open spec fn host_of(raw: Seq<char>) -> Seq<char> {
    lowercase(
        trim_back(
            trim_front(trimmed(bare_host(authority(raw))), Trim::Only('.')),
            Trim::Only('.'),
        ),
    )
}

pub open spec fn holds_white_space(s: Seq<char>) -> bool {
    exists|i: int| 0 <= i < s.len() && is_white_space(#[trigger] s[i])
}

/// An address names a host when something is left of it and no white space is
/// inside.
pub open spec fn names_host(raw: Seq<char>) -> bool {
    authority(raw).len() > 0 && host_of(raw).len() > 0 && !holds_white_space(host_of(raw))
}

/// The host that a URL, a domain or a host with a port names.
pub fn normalize_local_tdata_host(raw: &str) -> (r: Option<String>)
    ensures
        r is Some == names_host(raw@),
        r matches Some(h) ==> h@ == host_of(raw@),
{
    let stripped = trim_end_of(trim(raw).as_str(), Trim::Only('/'));
    let s = stripped.as_str();
    if s.is_empty() {
        proof {
            lemma_find_from(s@, "://"@, 0);
            reveal_strlit("://");
            assert(without_scheme(s@) =~= Seq::<char>::empty());
        }
        return None;
    }
    let n: usize = s.unicode_len();
    let start: usize = match find_text(s, "://") {
        Some(pos) => {
            proof {
                lemma_find_from(s@, "://"@, 0);
                reveal_strlit("://");
            }
            pos + 3
        },
        None => 0,
    };
    let rest = s.substring_char(start, n);
    assert(rest@ =~= without_scheme(s@));
    let hostish = trim(text_before(rest, '/').as_str());
    assert(hostish@ == authority(raw@));
    let h = hostish.as_str();
    if h.is_empty() {
        return None;
    }
    let m: usize = h.unicode_len();
    let bare = if h.get_char(0) == '[' {
        let inner = h.substring_char(1, m);
        assert(inner@ =~= h@.drop_first());
        text_before(inner, ']')
    } else {
        text_before(h, ':')
    };
    let host = ascii_lowercase(trim_both(trim(bare.as_str()).as_str(), Trim::Only('.')).as_str());
    if host.as_str().is_empty() {
        return None;
    }
    let x: Vec<char> = chars_of(host.as_str());
    let mut i: usize = 0;
    while i < x.len()
        invariant
            x@ == host@,
            host@ == host_of(raw@),
            i <= x@.len(),
            forall|j: int| 0 <= j < i ==> !is_white_space(#[trigger] host@[j]),
        decreases x@.len() - i,
    {
        if white_space(x[i]) {
            assert(is_white_space(host@[i as int]));
            return None;
        }
        i += 1;
    }
    Some(host)
}

/// What is left before the first `c` stood in the text and is not `c`.
proof fn lemma_before_first_members(s: Seq<char>, c: char)
    ensures
        forall|x: char| #[trigger]
            before_first(s, c).contains(x) ==> s.contains(x) && x != c,
    decreases s.len(),
{
    if s.len() > 0 && s[0] != c {
        let rest = s.drop_first();
        lemma_before_first_members(rest, c);
        assert forall|x: char| #[trigger]
            before_first(s, c).contains(x) implies s.contains(x) && x != c by {
            let i = choose|i: int| 0 <= i < before_first(s, c).len() && before_first(s, c)[i] == x;
            if i == 0 {
                assert(s[0] == x);
            } else {
                assert(before_first(rest, c)[i - 1] == x);
                assert(before_first(rest, c).contains(x));
                let j = choose|j: int| 0 <= j < rest.len() && rest[j] == x;
                assert(s[j + 1] == x);
            }
        }
    }
}

/// What a trim at both ends leaves stood in the text.
proof fn lemma_trim_members(s: Seq<char>, t: Trim)
    ensures
        forall|x: char| #[trigger]
            trim_back(trim_front(s, t), t).contains(x) ==> s.contains(x),
{
    let f = trim_front(s, t);
    let b = trim_back(f, t);
    lemma_trim_front_first(s, t);
    lemma_trim_back_last(f, t);
    assert forall|x: char| #[trigger] b.contains(x) implies s.contains(x) by {
        let i = choose|i: int| 0 <= i < b.len() && b[i] == x;
        assert(f[i] == x);
        assert(s[i + (s.len() - f.len())] == x);
    }
}

/// A text with nothing in it that a normal form takes away is its own normal form.
proof fn lemma_plain_host(h: Seq<char>)
    requires
        h.len() > 0,
        h[0] != '[',
        h[0] != '.',
        h.last() != '.',
        forall|i: int|
            0 <= i < h.len() ==> !is_white_space(#[trigger] h[i]) && h[i] != '/' && h[i] != ':'
                && lower(h[i]) == h[i],
    ensures
        names_host(h),
        host_of(h) == h,
{
    assert(trimmed(h) == h);
    assert(trim_back(h, Trim::Only('/')) == h);
    assert(without_scheme(h) == h) by {
        lemma_find_from(h, "://"@, 0);
        reveal_strlit("://");
        if let Some(i) = find(h, "://"@) {
            assert(h.subrange(i, i + 3)[0] == h[i]);
        }
    }
    assert(before_first(h, '/') == h) by {
        lemma_before_first(h, '/', h.len() as int);
        assert(h.take(h.len() as int) =~= h);
    }
    assert(before_first(h, ':') == h) by {
        lemma_before_first(h, ':', h.len() as int);
        assert(h.take(h.len() as int) =~= h);
    }
    assert(lowercase(h) =~= h);
}

/// A host in normal form is left as it is, unless it is one that only brackets can
/// carry: one with a colon in it, or with a bracket at its front.
pub proof fn law_normal_hosts_are_kept(raw: Seq<char>)
    requires
        names_host(raw),
        !host_of(raw).contains(':'),
        host_of(raw)[0] != '[',
    ensures
        names_host(host_of(raw)),
        host_of(host_of(raw)) == host_of(raw),
{
    let h = host_of(raw);
    let a = authority(raw);
    let path = without_scheme(trim_back(trimmed(raw), Trim::Only('/')));
    let bare = bare_host(a);
    let t = trimmed(bare);
    let f = trim_front(t, Trim::Only('.'));
    let x = trim_back(f, Trim::Only('.'));
    lemma_before_first_members(path, '/');
    lemma_trim_members(before_first(path, '/'), Trim::White);
    lemma_before_first_members(a, ':');
    lemma_before_first_members(a.drop_first(), ']');
    lemma_trim_members(bare, Trim::White);
    lemma_trim_members(t, Trim::Only('.'));
    lemma_trim_front_first(t, Trim::Only('.'));
    lemma_trim_back_last(f, Trim::Only('.'));
    assert(h == lowercase(x));
    assert(x[0] == f[0]);
    assert(h[0] == lower(x[0]));
    assert(h.last() == lower(x.last()));
    assert forall|i: int| 0 <= i < h.len() implies !is_white_space(#[trigger] h[i]) && h[i] != '/'
        && h[i] != ':' && lower(h[i]) == h[i] by {
        assert(h.contains(h[i]));
        assert(x.contains(x[i]));
        assert(t.contains(x[i]));
        assert(bare.contains(x[i]));
        assert(a.contains(x[i])) by {
            if a.len() > 0 && a[0] == '[' {
                let rest = a.drop_first();
                assert(rest.contains(x[i]));
                let j = choose|j: int| 0 <= j < rest.len() && rest[j] == x[i];
                assert(a[j + 1] == x[i]);
            }
        }
        assert(x[i] != '/');
    }
    lemma_plain_host(h);
}

/// The hosts that the given addresses name.
pub open spec fn named_hosts(addresses: Seq<Seq<char>>) -> Set<Seq<char>>
    decreases addresses.len(),
{
    if addresses.len() == 0 {
        Set::empty()
    } else if names_host(addresses.last()) {
        named_hosts(addresses.drop_last()).insert(host_of(addresses.last()))
    } else {
        named_hosts(addresses.drop_last())
    }
}

/// The addresses that settings give: the parts of a comma separated list, and
/// then the base addresses.
pub open spec fn configured_addresses(list: Option<&str>, bases: Seq<String>) -> Seq<Seq<char>> {
    match list {
        Some(l) => pieces(l@, ',') + texts(bases),
        None => texts(bases),
    }
}

fn add_hosts(hosts: &mut SortedSet<String>, addresses: &Vec<String>, done: Ghost<Seq<Seq<char>>>)
    requires
        old(hosts).wf(),
        old(hosts)@ == named_hosts(done@),
    ensures
        final(hosts).wf(),
        final(hosts)@ == named_hosts(done@ + texts(addresses@)),
{
    let mut i: usize = 0;
    assert(done@ + texts(addresses@).take(0) =~= done@);
    while i < addresses.len()
        invariant
            i <= addresses@.len(),
            hosts.wf(),
            hosts@ == named_hosts(done@ + texts(addresses@).take(i as int)),
        decreases addresses@.len() - i,
    {
        proof {
            let next = done@ + texts(addresses@).take(i + 1);
            assert(next.drop_last() =~= done@ + texts(addresses@).take(i as int));
            assert(next.last() == addresses@[i as int]@);
        }
        match normalize_local_tdata_host(addresses[i].as_str()) {
            Some(host) => {
                let _ = hosts.insert(host);
            },
            None => {},
        }
        i += 1;
    }
    assert(texts(addresses@).take(addresses@.len() as int) =~= texts(addresses@));
}

/// The hosts that this process owns.
pub fn env_local_tdata_hosts(list: Option<&str>, bases: &Vec<String>) -> (r: SortedSet<String>)
    ensures
        r.wf(),
        r@ == named_hosts(configured_addresses(list, bases@)),
{
    let mut hosts: SortedSet<String> = SortedSet::new();
    match list {
        Some(raw) => {
            let items = split_text(raw, ',');
            add_hosts(&mut hosts, &items, Ghost(Seq::empty()));
            assert(Seq::<Seq<char>>::empty() + texts(items@) =~= pieces(raw@, ','));
            add_hosts(&mut hosts, bases, Ghost(pieces(raw@, ',')));
        },
        None => {
            add_hosts(&mut hosts, bases, Ghost(Seq::empty()));
            assert(Seq::<Seq<char>>::empty() + texts(bases@) =~= texts(bases@));
        },
    }
    hosts
}

/// No word says both yes and no, and the words are these; any other leaves the default.
pub proof fn law_switches_know_eight_words(v: Seq<char>)
    ensures
        !(says_no(v) && says_yes(v)),
        says_no(v) <==> v == seq!['0'] || v == "false"@ || v == "off"@ || v == "no"@,
        says_yes(v) <==> v == seq!['1'] || v == "true"@ || v == "on"@ || v == "yes"@,
{
    reveal_strlit("0");
    reveal_strlit("1");
    reveal_strlit("false");
    reveal_strlit("off");
    reveal_strlit("no");
    reveal_strlit("true");
    reveal_strlit("on");
    reveal_strlit("yes");
    assert("0"@ =~= seq!['0']);
    assert("1"@ =~= seq!['1']);
    if says_no(v) && says_yes(v) {
        assert(v.len() == 1 || v.len() == 2 || v.len() == 3 || v.len() == 5) by {
            assert("0"@.len() == 1 && "false"@.len() == 5 && "off"@.len() == 3 && "no"@.len() == 2);
        }
        assert("1"@.len() == 1 && "true"@.len() == 4 && "on"@.len() == 2 && "yes"@.len() == 3);
        assert(v.len() == 1 ==> v[0] == '0' && v[0] == '1');
        assert(v.len() == 2 ==> v[0] == 'n' && v[0] == 'o');
        assert(v.len() == 3 ==> v[0] == 'o' && v[0] == 'y');
    }
}

/// A number counts where it is written out and fits; spaces around it make no difference.
pub proof fn law_numbers_count_where_they_fit(value: Option<&str>, limit: int)
    ensures
        value is None ==> setting_number(value, limit) is None,
        setting_number(value, limit) matches Some(n) ==> 0 <= n <= limit && unsigned_value(
            trimmed(value->0@),
        ) == Some(n as nat),
        value is Some && unsigned_value(trimmed(value->0@)) is None ==> setting_number(
            value,
            limit,
        ) is None,
        value is Some && (unsigned_value(trimmed(value->0@)) matches Some(n) && n <= limit)
            ==> setting_number(value, limit) is Some,
{
}

/// A process owns the hosts that its addresses name, and no others.
pub proof fn law_owned_hosts_are_the_named_ones(addresses: Seq<Seq<char>>, host: Seq<char>)
    ensures
        named_hosts(addresses).contains(host) <==> exists|i: int|
            0 <= i < addresses.len() && names_host(#[trigger] addresses[i]) && host_of(
                addresses[i],
            ) == host,
    decreases addresses.len(),
{
    if addresses.len() > 0 {
        let before = addresses.drop_last();
        let n = addresses.len() - 1;
        law_owned_hosts_are_the_named_ones(before, host);
        assert forall|i: int| 0 <= i < n implies #[trigger] before[i] == addresses[i] by {}
        if named_hosts(addresses).contains(host) {
            if names_host(addresses[n]) && host_of(addresses[n]) == host {
                assert(names_host(addresses[n]));
            } else {
                let i = choose|i: int|
                    0 <= i < before.len() && names_host(#[trigger] before[i]) && host_of(before[i])
                        == host;
                assert(names_host(addresses[i]));
            }
        }
        if exists|i: int|
            0 <= i < addresses.len() && names_host(#[trigger] addresses[i]) && host_of(
                addresses[i],
            ) == host {
            let i = choose|i: int|
                0 <= i < addresses.len() && names_host(#[trigger] addresses[i]) && host_of(
                    addresses[i],
                ) == host;
            if i < n {
                assert(names_host(before[i]));
            }
        }
    }
}

/// Every base address is an address of the process, with a list and without one, and so is
/// every part of the list.
pub proof fn law_every_setting_is_an_address(list: Option<&str>, bases: Seq<String>, i: int)
    ensures
        0 <= i < bases.len() ==> configured_addresses(list, bases).contains(bases[i]@),
        list matches Some(l) ==> (0 <= i < pieces(l@, ',').len() ==> configured_addresses(
            list,
            bases,
        ).contains(pieces(l@, ',')[i])),
        list is None ==> configured_addresses(list, bases).len() == bases.len(),
{
    let all = configured_addresses(list, bases);
    if 0 <= i < bases.len() {
        assert(texts(bases)[i] == bases[i]@);
        match list {
            Some(l) => {
                assert(all[pieces(l@, ',').len() + i] == bases[i]@);
            },
            None => {
                assert(all[i] == bases[i]@);
            },
        }
    }
    match list {
        Some(l) => {
            if 0 <= i < pieces(l@, ',').len() {
                assert(all[i] == pieces(l@, ',')[i]);
            }
        },
        None => {},
    }
}

/// A plain host is named by its address with a scheme, with a port and with a path, as it
/// is by itself.
pub proof fn law_hosts_are_found_in_addresses(
    scheme: Seq<char>,
    host: Seq<char>,
    port: Seq<char>,
    path: Seq<char>,
)
    requires
        scheme.len() > 0,
        forall|i: int|
            0 <= i < scheme.len() ==> !is_white_space(#[trigger] scheme[i]) && scheme[i] != ':'
                && scheme[i] != '/',
        host.len() > 0,
        host[0] != '[',
        host[0] != '.',
        host.last() != '.',
        forall|i: int|
            0 <= i < host.len() ==> !is_white_space(#[trigger] host[i]) && host[i] != '/'
                && host[i] != ':' && lower(host[i]) == host[i],
        port.len() > 0,
        forall|i: int|
            0 <= i < port.len() ==> !is_white_space(#[trigger] port[i]) && port[i] != '/',
        path.len() > 0,
        !is_white_space(path.last()),
        path.last() != '/',
    ensures
        host_of(scheme + "://"@ + host + ":"@ + port + "/"@ + path) == host,
        names_host(scheme + "://"@ + host + ":"@ + port + "/"@ + path),
{
    reveal_strlit("://");
    reveal_strlit(":");
    reveal_strlit("/");
    let raw = scheme + "://"@ + host + ":"@ + port + "/"@ + path;
    let n = scheme.len() as int;
    assert(raw[0] == scheme[0]);
    assert(raw.last() == path.last());
    assert(trimmed(raw) == raw);
    assert(trim_back(raw, Trim::Only('/')) == raw);
    assert(occurs_at(raw, "://"@, n)) by {
        assert(raw.subrange(n, n + 3) =~= "://"@);
    }
    lemma_find_from(raw, "://"@, 0);
    assert(find(raw, "://"@) == Some(n)) by {
        match find(raw, "://"@) {
            Some(i) => {
                if i < n {
                    assert(raw.subrange(i, i + 3)[0] == ':');
                    assert(raw[i] == scheme[i]);
                }
            },
            None => {},
        }
    }
    let rest = raw.skip(n + 3);
    let spot = host + ":"@ + port;
    assert(rest =~= spot + "/"@ + path);
    assert forall|j: int| 0 <= j < spot.len() implies #[trigger] rest[j] != '/' && spot[j]
        == rest[j] by {
        if j < host.len() {
            assert(rest[j] == host[j]);
        } else if j > host.len() {
            assert(rest[j] == port[j - host.len() - 1]);
        }
    }
    assert(rest[spot.len() as int] == '/');
    lemma_before_first(rest, '/', spot.len() as int);
    assert(rest.take(spot.len() as int) =~= spot);
    assert(spot[0] == host[0]);
    assert(spot.last() == port.last());
    assert(trimmed(spot) == spot);
    assert(authority(raw) == spot);
    assert forall|j: int| 0 <= j < host.len() implies #[trigger] spot[j] != ':' by {
        assert(spot[j] == host[j]);
    }
    assert(spot[host.len() as int] == ':');
    lemma_before_first(spot, ':', host.len() as int);
    assert(spot.take(host.len() as int) =~= host);
    assert(bare_host(spot) == host);
    assert(trimmed(host) == host);
    assert(lowercase(host) =~= host);
}

} // verus!
