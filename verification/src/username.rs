//! Usernames on the mobile gateway: their normal form, the format rules, and
//! the registry of names seen recently, which decides whether a name is free.
use vstd::prelude::*;
use vstd::string::*;
use crate::timetable::{elapsed_ms, recent_entries, TimeTable};
use crate::text::{chars_of, lowercase, str_eq, to_lowercase_str, trim, trim_str};
use crate::api_types::{UiEvent, UiEventView, UsernameCheckResponse};

verus! {

/// How long a name stays taken after it was last seen, in milliseconds.
pub const USERNAME_TTL_MS: u64 = 120000;

/// Whether a name seen at `seen` still counts as taken at `now`.
pub open spec fn is_fresh(seen: u64, now: u64) -> bool {
    elapsed_ms(seen, now) <= USERNAME_TTL_MS
}

/// The names of `m` that are still fresh at `now`, with their times.
pub open spec fn fresh_names(m: Map<Seq<char>, u64>, now: u64) -> Map<Seq<char>, u64> {
    recent_entries(m, now, USERNAME_TTL_MS)
}

/// The names seen recently, each with the time (in milliseconds on the
/// gateway's clock) it was last seen.
pub struct UsernameRegistry {
    table: TimeTable,
}

impl View for UsernameRegistry {
    type V = Map<Seq<char>, u64>;

    closed spec fn view(&self) -> Map<Seq<char>, u64> {
        self.table@
    }
}

impl UsernameRegistry {
    /// A registry that knows no name.
    pub fn new() -> (r: Self)
        ensures
            r@ == Map::<Seq<char>, u64>::empty(),
    {
        UsernameRegistry { table: TimeTable::new() }
    }

    /// Whether `name` is known.
    pub fn contains(&self, name: &str) -> (r: bool)
        ensures
            r == self@.contains_key(name@),
    {
        self.table.contains(name)
    }

    /// Records that `name` was seen at `seen`.
    pub fn insert(&mut self, name: String, seen: u64)
        ensures
            final(self)@ == old(self)@.insert(name@, seen),
    {
        self.table.insert(name, seen);
    }

    /// Forgets the names not seen within the last [`USERNAME_TTL_MS`]
    /// milliseconds before `now`.
    pub fn prune(&mut self, now: u64)
        ensures
            final(self)@ == fresh_names(old(self)@, now),
    {
        self.table.retain_recent(now, USERNAME_TTL_MS);
    }
}

// ---------------------------------------------------------------------------
// Format
// ---------------------------------------------------------------------------

/// The shortest allowed name, in bytes of UTF-8.
pub const USERNAME_MIN_LEN: usize = 3;

/// The longest allowed name, in bytes of UTF-8.
pub const USERNAME_MAX_LEN: usize = 24;

/// The normal form of a name: without surrounding whitespace, in lower case.
pub open spec fn normalized_username(value: Seq<char>) -> Seq<char> {
    lowercase(trim(value))
}

/// The normal form of a username, so that `User` and ` user ` are one name.
pub fn normalize_username(value: &str) -> (r: String)
    ensures
        r@ == normalized_username(value@),
{
    to_lowercase_str(trim_str(value))
}

/// The number of bytes `c` takes in UTF-8.
pub open spec fn utf8_width(c: char) -> nat {
    let v = c as u32;
    if v < 0x80 {
        1
    } else if v < 0x800 {
        2
    } else if v < 0x10000 {
        3
    } else {
        4
    }
}

/// The number of bytes `s` takes in UTF-8 (what `str::len` returns).
pub open spec fn utf8_len(s: Seq<char>) -> nat
    decreases s.len(),
{
    if s.len() == 0 {
        0
    } else {
        utf8_len(s.drop_last()) + utf8_width(s.last())
    }
}

/// The characters a name may hold: lower-case ASCII letters, ASCII digits,
/// `_`, `-`, `.`.
pub open spec fn is_username_char(c: char) -> bool {
    let v = c as u32;
    ||| 0x30 <= v <= 0x39
    ||| 0x61 <= v <= 0x7a
    ||| c == '_'
    ||| c == '-'
    ||| c == '.'
}

/// Why `value` is not an acceptable name, checked in this order: empty, too
/// short, too long (lengths in bytes), a character outside the allowed set;
/// `None` when it is acceptable.
pub open spec fn username_format_error(value: Seq<char>) -> Option<Seq<char>> {
    if value.len() == 0 {
        Some("Ник не должен быть пустым"@)
    } else if utf8_len(value) < USERNAME_MIN_LEN {
        Some("Минимум 3 символа"@)
    } else if utf8_len(value) > USERNAME_MAX_LEN {
        Some("Максимум 24 символа"@)
    } else if !(forall|i: int| 0 <= i < value.len() ==> is_username_char(#[trigger] value[i])) {
        Some("Разрешены только a-z, 0-9, '.', '_' и '-'"@)
    } else {
        None
    }
}

fn is_username_char_exec(c: char) -> (r: bool)
    ensures
        r == is_username_char(c),
{
    let v = c as u32;
    (0x30 <= v && v <= 0x39) || (0x61 <= v && v <= 0x7a) || c == '_'
        || c == '-' || c == '.'
}

fn utf8_width_exec(c: char) -> (r: u64)
    ensures
        r == utf8_width(c),
{
    let v = c as u32;
    if v < 0x80 {
        1
    } else if v < 0x800 {
        2
    } else if v < 0x10000 {
        3
    } else {
        4
    }
}

proof fn lemma_utf8_len_grows(s: Seq<char>, i: int)
    requires
        0 <= i <= s.len(),
    ensures
        utf8_len(s.take(i)) <= utf8_len(s),
    decreases s.len() - i,
{
    if i < s.len() {
        lemma_utf8_len_grows(s, i + 1);
        assert(s.take(i + 1).drop_last() =~= s.take(i));
    } else {
        assert(s.take(i) =~= s);
    }
}

/// Checks a (normalized) name against the format rules.
pub fn validate_username_format(value: &str) -> (r: Result<(), String>)
    ensures
        match r {
            Ok(()) => username_format_error(value@) is None,
            Err(m) => username_format_error(value@) == Some(m@),
        },
{
    let cs = chars_of(value);
    let n = cs.len();
    if n == 0 {
        return Err(String::from_str("Ник не должен быть пустым"));
    }
    // the length in bytes, counted until it is known to be too long
    let mut len: u64 = 0;
    let mut i: usize = 0;
    while i < n && len <= 24
        invariant
            cs@ == value@,
            n == cs@.len(),
            i <= n,
            len == utf8_len(cs@.take(i as int)),
        decreases n - i,
    {
        assert(cs@.take(i + 1).drop_last() =~= cs@.take(i as int));
        len = len + utf8_width_exec(cs[i]);
        i = i + 1;
    }
    proof {
        lemma_utf8_len_grows(cs@, i as int);
        if i == n {
            assert(cs@.take(n as int) =~= cs@);
        }
    }
    if len < 3 {
        return Err(String::from_str("Минимум 3 символа"));
    }
    if len > 24 {
        return Err(String::from_str("Максимум 24 символа"));
    }
    let mut k: usize = 0;
    while k < n
        invariant
            cs@ == value@,
            n == cs@.len(),
            k <= n,
            n > 0,
            USERNAME_MIN_LEN <= utf8_len(cs@) <= USERNAME_MAX_LEN,
            forall|j: int| 0 <= j < k ==> is_username_char(#[trigger] cs@[j]),
        decreases n - k,
    {
        if !is_username_char_exec(cs[k]) {
            return Err(String::from_str("Разрешены только a-z, 0-9, '.', '_' и '-'"));
        }
        k = k + 1;
    }
    Ok(())
}

/// Whether `c` is a lower-case ASCII letter, an ASCII digit, `_`, `-` or `.`.
pub open spec fn lower_ascii_name_char(c: char) -> bool {
    ||| 'a' as u32 <= c as u32 <= 'z' as u32
    ||| '0' as u32 <= c as u32 <= '9' as u32
    ||| c == '_'
    ||| c == '-'
    ||| c == '.'
}

/// Law: the characters a name may hold are exactly the lower-case ASCII
/// letters `a`..=`z`, the ASCII digits, `_`, `-` and `.`.
pub proof fn lemma_username_chars(c: char)
    ensures
        is_username_char(c) <==> lower_ascii_name_char(c),
{
}

proof fn lemma_utf8_len_ascii(s: Seq<char>)
    requires
        forall|i: int| 0 <= i < s.len() ==> ((#[trigger] s[i]) as u32) < 0x80,
    ensures
        utf8_len(s) == s.len(),
    decreases s.len(),
{
    if s.len() > 0 {
        let d = s.drop_last();
        assert forall|i: int| 0 <= i < d.len() implies ((#[trigger] d[i]) as u32) < 0x80 by {
            assert(d[i] == s[i]);
        }
        lemma_utf8_len_ascii(d);
        assert(s.last() == s[s.len() - 1]);
    }
}

/// Law: every name of 3 to 24 characters, each a lower-case ASCII letter, an
/// ASCII digit, `_`, `-` or `.`, is well formed; in particular every name
/// of 3 to 24 letters from `a`..=`z`.
pub proof fn lemma_plain_names_well_formed(s: Seq<char>)
    requires
        USERNAME_MIN_LEN <= s.len() <= USERNAME_MAX_LEN,
        forall|i: int| 0 <= i < s.len() ==> lower_ascii_name_char(#[trigger] s[i]),
    ensures
        username_format_error(s) is None,
{
    assert forall|i: int| 0 <= i < s.len() implies ((#[trigger] s[i]) as u32) < 0x80 by {
        assert(lower_ascii_name_char(s[i]));
    }
    lemma_utf8_len_ascii(s);
    assert forall|i: int| 0 <= i < s.len() implies is_username_char(#[trigger] s[i]) by {
        assert(lower_ascii_name_char(s[i]));
    }
}

// ---------------------------------------------------------------------------
// Whether a name is free
// ---------------------------------------------------------------------------

/// Whether `requested` is free for a client whose name is `current`: its own
/// name always is, another is free when no fresh entry holds it.
pub open spec fn name_available(
    fresh: Map<Seq<char>, u64>,
    requested: Seq<char>,
    current: Option<Seq<char>>,
) -> bool {
    current == Some(requested) || !fresh.contains_key(requested)
}

/// The answer to a check of `requested` (already normalized) and the registry
/// after it: a badly formed name is refused with the reason and leaves the
/// registry alone; otherwise stale names are dropped first, and the name is
/// reported free or taken.
pub open spec fn username_status(
    requested: Seq<char>,
    registry: Map<Seq<char>, u64>,
    current: Option<Seq<char>>,
    applied: bool,
    now: u64,
) -> (UiEventView, Map<Seq<char>, u64>) {
    match username_format_error(requested) {
        Some(m) => (
            UiEventView::UsernameStatus {
                username: requested,
                available: false,
                applied: applied,
                message: m,
            },
            registry,
        ),
        None => {
            let fresh = fresh_names(registry, now);
            let available = name_available(fresh, requested, current);
            (
                UiEventView::UsernameStatus {
                    username: requested,
                    available: available,
                    applied: applied,
                    message: if !available {
                        "Этот ник уже занят"@
                    } else if applied {
                        "Ник свободен и сохранён"@
                    } else {
                        "Ник свободен"@
                    },
                },
                fresh,
            )
        },
    }
}

/// Checks whether `requested` (already normalized) is well formed and free for
/// a client whose name is `current_username`, at `now` on the gateway's clock.
pub fn build_username_status(
    requested: &str,
    registry: &mut UsernameRegistry,
    current_username: Option<&str>,
    applied: bool,
    now: u64,
) -> (r: UiEvent)
    ensures
        (r@, final(registry)@) == username_status(
            requested@,
            old(registry)@,
            match current_username {
                Some(c) => Some(c@),
                None => None,
            },
            applied,
            now,
        ),
{
    match validate_username_format(requested) {
        Err(message) => {
            return UiEvent::UsernameStatus {
                username: requested.to_owned(),
                available: false,
                applied,
                message,
            };
        },
        Ok(()) => {},
    }
    registry.prune(now);
    let available = match current_username {
        Some(current) => str_eq(requested, current) || !registry.contains(requested),
        None => !registry.contains(requested),
    };
    let message = if !available {
        String::from_str("Этот ник уже занят")
    } else if applied {
        String::from_str("Ник свободен и сохранён")
    } else {
        String::from_str("Ник свободен")
    };
    UiEvent::UsernameStatus { username: requested.to_owned(), available, applied, message }
}

/// The answer of the HTTP check of `username` for a client whose name is
/// `current` (both normalized first).
pub open spec fn check_response(
    registry: Map<Seq<char>, u64>,
    username: Seq<char>,
    current: Option<Seq<char>>,
    now: u64,
) -> (Seq<char>, bool, Seq<char>, Map<Seq<char>, u64>) {
    let requested = normalized_username(username);
    let cur = match current {
        Some(c) => Some(normalized_username(c)),
        None => None,
    };
    let (status, reg) = username_status(requested, registry, cur, false, now);
    match status {
        UiEventView::UsernameStatus { username, available, message, .. } => (
            username,
            available,
            message,
            reg,
        ),
        _ => (requested, false, "Внутренняя ошибка проверки"@, reg),
    }
}

/// Answers the HTTP check of a username for a client whose name is `current`.
pub fn check_username(
    registry: &mut UsernameRegistry,
    username: &str,
    current: Option<&str>,
    now: u64,
) -> (r: UsernameCheckResponse)
    ensures
        (r.username@, r.available, r.message@, final(registry)@) == check_response(
            old(registry)@,
            username@,
            match current {
                Some(c) => Some(c@),
                None => None,
            },
            now,
        ),
{
    let requested = normalize_username(username);
    let current_normalized = match current {
        Some(c) => Some(normalize_username(c)),
        None => None,
    };
    let current_ref: Option<&str> = match &current_normalized {
        Some(c) => Some(c.as_str()),
        None => None,
    };
    let status = build_username_status(requested.as_str(), registry, current_ref, false, now);
    match status {
        UiEvent::UsernameStatus { username, available, message, .. } => UsernameCheckResponse {
            username,
            available,
            message,
        },
        _ => UsernameCheckResponse {
            username: requested,
            available: false,
            message: String::from_str("Внутренняя ошибка проверки"),
        },
    }
}

/// Records a name seen in use (normalized first; an empty one is ignored).
pub open spec fn observed(registry: Map<Seq<char>, u64>, username: Seq<char>, now: u64) -> Map<
    Seq<char>,
    u64,
> {
    let n = normalized_username(username);
    if n.len() > 0 {
        registry.insert(n, now)
    } else {
        registry
    }
}

/// Keeps the registry up to date with the events the gateway broadcasts: an
/// observed name is recorded as seen at `now`; other events change nothing.
pub fn observe_event(registry: &mut UsernameRegistry, event: &UiEvent, now: u64)
    ensures
        final(registry)@ == (match event@ {
            UiEventView::UsernameObserved { username } => observed(old(registry)@, username, now),
            _ => old(registry)@,
        }),
{
    if let UiEvent::UsernameObserved { username } = event {
        let normalized = normalize_username(username.as_str());
        if normalized.as_str().unicode_len() > 0 {
            registry.insert(normalized, now);
        }
    }
}

} // verus!
