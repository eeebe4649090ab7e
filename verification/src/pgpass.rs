//! The password file: one candidate entry per line, five colon-separated
//! fields (hostname, port, database, username, password), a backslash
//! escaping a colon or a backslash, `*` matching anything, `#` starting a
//! comment.  The first entry matching the connection options yields its
//! password.  Opening the file — and refusing one with lax permissions —
//! is the caller's affair; the text is parsed here.

use vstd::prelude::*;
use vstd::string::StrSliceExecFns;
use crate::chars::{lines_spec, split_lines, str_eq, string_from_chars};
use crate::connection_options::ConnectionOptions;
use crate::ui::{is_space, skip_space_back, skip_space_fwd};

verus! {

/// Whether a password file with these permission bits may be used: no
/// permission beyond read and write for the owner.
pub fn mode_is_safe(mode: u32) -> (r: bool)
    ensures
        r == (mode & 0o777 <= 0o600),
{
    mode & 0o777 <= 0o600
}

/// The characters the field scan starting at `i` contributes to the
/// current field, entering with a pending backslash or not: a backslash
/// escapes a colon or a backslash, before anything else it stays literal,
/// and an unescaped colon ends the field.
pub open spec fn scan_field(s: Seq<char>, i: int, bs: bool) -> Seq<char>
    decreases s.len() - i,
{
    if i < 0 || i >= s.len() {
        if bs {
            seq!['\\']
        } else {
            Seq::empty()
        }
    } else if s[i] == '\\' {
        if bs {
            seq!['\\'].add(scan_field(s, i + 1, false))
        } else {
            scan_field(s, i + 1, true)
        }
    } else if s[i] == ':' {
        if bs {
            seq![':'].add(scan_field(s, i + 1, false))
        } else {
            Seq::empty()
        }
    } else {
        if bs {
            seq!['\\', s[i]].add(scan_field(s, i + 1, false))
        } else {
            seq![s[i]].add(scan_field(s, i + 1, false))
        }
    }
}

/// Index of the unescaped colon that ends the field scanned from `i`, or
/// the length of `s` when the field runs to the end.
pub open spec fn scan_stop(s: Seq<char>, i: int, bs: bool) -> int
    decreases s.len() - i,
{
    if i < 0 || i >= s.len() {
        s.len() as int
    } else if s[i] == ':' && !bs {
        i
    } else if s[i] == '\\' && !bs {
        scan_stop(s, i + 1, true)
    } else {
        scan_stop(s, i + 1, false)
    }
}

/// Where the next field scan starts after one scan from `pos`: one past
/// the last index the scan visited, except that a scan whose last visited
/// index is `pos` itself does not advance.
pub open spec fn next_pos(s: Seq<char>, pos: int) -> int {
    let stop = scan_stop(s, pos, false);
    let last = if stop < s.len() {
        stop
    } else {
        s.len() - 1
    };
    if last > pos {
        last + 1
    } else {
        pos
    }
}

/// The fields that up to `n` scans starting at `pos` yield, stopping when
/// a scan starts at or past the end.
pub open spec fn take_fields(s: Seq<char>, pos: int, n: nat) -> Seq<Seq<char>>
    decreases n,
{
    if n == 0 || pos < 0 || pos >= s.len() {
        Seq::empty()
    } else {
        seq![scan_field(s, pos, false)].add(take_fields(s, next_pos(s, pos), (n - 1) as nat))
    }
}

/// Splits a line into its colon-separated fields, one call per field.
pub struct FieldSplit {
    pub s: Vec<char>,
    pub pos: usize,
}

impl FieldSplit {
    /// A splitter at the start of `s`.
    pub fn new(s: &str) -> (r: FieldSplit)
        ensures
            r.s@ == s@,
            r.pos == 0,
    {
        FieldSplit { s: crate::chars::to_char_vec(s), pos: 0 }
    }

    /// The next field, or nothing once the scan position has reached the
    /// end of the line.
    ///
    /// A scan whose last visited index equals its starting position does
    /// not advance — on a line such as `:a`, or after a final field of one
    /// character, repeated calls keep yielding the same field and never
    /// reach the end.  A caller must therefore bound its calls, as
    /// `Entry::parse` does with its six; a loop that runs to exhaustion
    /// may not terminate.
    pub fn next(&mut self) -> (r: Option<String>)
        requires
            old(self).pos <= old(self).s@.len(),
        ensures
            final(self).s@ == old(self).s@,
            final(self).pos <= final(self).s@.len(),
            old(self).pos >= old(self).s@.len() ==> r is None && final(self).pos == old(
                self,
            ).pos,
            old(self).pos < old(self).s@.len() ==> {
                &&& r matches Some(f) && f@ == scan_field(
                    old(self).s@,
                    old(self).pos as int,
                    false,
                )
                &&& final(self).pos as int == next_pos(old(self).s@, old(self).pos as int)
            },
    {
        let n = self.s.len();
        if self.pos >= n {
            return None;
        }
        let ghost s = self.s@;
        let ghost p0 = self.pos as int;
        let mut field: Vec<char> = Vec::new();
        let mut backslash = false;
        let mut i = self.pos;
        let mut broke = false;
        loop
            invariant_except_break
                self.s@ == s,
                n == s.len(),
                self.pos as int == p0,
                p0 <= i as int <= n,
                broke == false,
                scan_field(s, p0, false) == field@ + scan_field(s, i as int, backslash),
                scan_stop(s, p0, false) == scan_stop(s, i as int, backslash),
            ensures
                self.s@ == s,
                n == s.len(),
                self.pos as int == p0,
                p0 <= i as int <= n,
                broke ==> i < n && !backslash,
                scan_field(s, p0, false) == field@ + (if backslash {
                    seq!['\\']
                } else {
                    Seq::<char>::empty()
                }),
                scan_stop(s, p0, false) == (if broke {
                    i as int
                } else {
                    n as int
                }),
            decreases n - i,
        {
            if i >= n {
                proof {
                    assert(field@ + Seq::<char>::empty() =~= field@);
                    assert(field@ + seq!['\\'] =~= field@.push('\\'));
                }
                break;
            }
            let ghost old_field = field@;
            let ghost old_bs = backslash;
            let c = self.s[i];
            if c == '\\' {
                if backslash {
                    field.push('\\');
                    backslash = false;
                    proof {
                        assert(old_field + (seq!['\\'].add(scan_field(s, i as int + 1, false)))
                            =~= field@ + scan_field(s, i as int + 1, false));
                    }
                } else {
                    backslash = true;
                }
            } else if c == ':' {
                if backslash {
                    field.push(':');
                    backslash = false;
                    proof {
                        assert(old_field + (seq![':'].add(scan_field(s, i as int + 1, false)))
                            =~= field@ + scan_field(s, i as int + 1, false));
                    }
                } else {
                    broke = true;
                    proof {
                        assert(field@ + Seq::<char>::empty() =~= field@);
                    }
                    break;
                }
            } else {
                if backslash {
                    field.push('\\');
                    backslash = false;
                    field.push(c);
                    proof {
                        assert(old_field + (seq!['\\', c].add(scan_field(s, i as int + 1, false)))
                            =~= field@ + scan_field(s, i as int + 1, false));
                    }
                } else {
                    field.push(c);
                    proof {
                        assert(old_field + (seq![c].add(scan_field(s, i as int + 1, false)))
                            =~= field@ + scan_field(s, i as int + 1, false));
                    }
                }
            }
            i = i + 1;
        }
        if backslash {
            field.push('\\');
        }
        assert(field@ == scan_field(s, p0, false));
        let last = if broke {
            i
        } else {
            n - 1
        };
        if last > self.pos {
            self.pos = last + 1;
        }
        Some(string_from_chars(&field))
    }
}

/// Unfolding `take_fields` by one scan.
proof fn lemma_take_unfold(s: Seq<char>, pos: int, n: nat)
    requires
        n > 0,
        0 <= pos < s.len(),
    ensures
        take_fields(s, pos, n) == seq![scan_field(s, pos, false)].add(
            take_fields(s, next_pos(s, pos), (n - 1) as nat),
        ),
{
}

/// A scan that starts at or past the end yields nothing.
proof fn lemma_take_empty(s: Seq<char>, pos: int, n: nat)
    requires
        pos >= s.len() || n == 0,
    ensures
        take_fields(s, pos, n) == Seq::<Seq<char>>::empty(),
{
}

/// One candidate of the password file: its five fields.
pub struct Entry {
    pub hostname: String,
    pub port: String,
    pub database: String,
    pub username: String,
    pub password: String,
}

/// Whether the entry accepts the given connection parameters: each field
/// matches its parameter, with `*` matching anything.
pub open spec fn matches_spec(
    e: Entry,
    hostname: Seq<char>,
    port: Seq<char>,
    database: Seq<char>,
    username: Seq<char>,
) -> bool {
    &&& (e.hostname@ == "*"@ || hostname == e.hostname@)
    &&& (e.port@ == "*"@ || port == e.port@)
    &&& (e.database@ == "*"@ || database == e.database@)
    &&& (e.username@ == "*"@ || username == e.username@)
}

impl Entry {
    /// Parses a line into an entry: exactly five fields, in order
    /// hostname, port, database, username, password.
    pub fn parse(s: &str) -> (r: Option<Entry>)
        ensures
            (take_fields(s@, 0, 6).len() == 5) == (r is Some),
            r matches Some(e) ==> ({
                let fs = take_fields(s@, 0, 6);
                &&& e.hostname@ == fs[0]
                &&& e.port@ == fs[1]
                &&& e.database@ == fs[2]
                &&& e.username@ == fs[3]
                &&& e.password@ == fs[4]
            }),
    {
        let ghost s0 = s@;
        let mut fields = FieldSplit::new(s);

        let hostname = match fields.next() {
            Some(f) => f,
            None => {
                proof {
                    lemma_take_empty(s0, 0, 6);
                }
                return None;
            },
        };
        let ghost p1 = fields.pos as int;
        proof {
            lemma_take_unfold(s0, 0, 6);
        }

        let port = match fields.next() {
            Some(f) => f,
            None => {
                proof {
                    lemma_take_empty(s0, p1, 5);
                    assert(take_fields(s0, 0, 6).len() == 1);
                }
                return None;
            },
        };
        let ghost p2 = fields.pos as int;
        proof {
            lemma_take_unfold(s0, p1, 5);
        }

        let database = match fields.next() {
            Some(f) => f,
            None => {
                proof {
                    lemma_take_empty(s0, p2, 4);
                    assert(take_fields(s0, 0, 6).len() == 2);
                }
                return None;
            },
        };
        let ghost p3 = fields.pos as int;
        proof {
            lemma_take_unfold(s0, p2, 4);
        }

        let username = match fields.next() {
            Some(f) => f,
            None => {
                proof {
                    lemma_take_empty(s0, p3, 3);
                    assert(take_fields(s0, 0, 6).len() == 3);
                }
                return None;
            },
        };
        let ghost p4 = fields.pos as int;
        proof {
            lemma_take_unfold(s0, p3, 3);
        }

        let password = match fields.next() {
            Some(f) => f,
            None => {
                proof {
                    lemma_take_empty(s0, p4, 2);
                    assert(take_fields(s0, 0, 6).len() == 4);
                }
                return None;
            },
        };
        let ghost p5 = fields.pos as int;
        proof {
            lemma_take_unfold(s0, p4, 2);
        }

        match fields.next() {
            Some(_) => {
                proof {
                    lemma_take_unfold(s0, p5, 1);
                    assert(take_fields(s0, 0, 6).len() == 6);
                }
                None
            },
            None => {
                proof {
                    lemma_take_empty(s0, p5, 1);
                    assert(take_fields(s0, 0, 6) =~= seq![
                        hostname@,
                        port@,
                        database@,
                        username@,
                        password@,
                    ]);
                }
                Some(Entry { hostname, port, database, username, password })
            },
        }
    }

    /// Whether this entry accepts the given connection parameters.
    pub fn matches(&self, hostname: &str, port: &str, database: &str, username: &str) -> (r:
        bool)
        ensures
            r == matches_spec(*self, hostname@, port@, database@, username@),
    {
        (str_eq(self.hostname.as_str(), "*") || str_eq(hostname, self.hostname.as_str()))
            && (str_eq(self.port.as_str(), "*") || str_eq(port, self.port.as_str())) && (str_eq(
            self.database.as_str(),
            "*",
        ) || str_eq(database, self.database.as_str())) && (str_eq(self.username.as_str(), "*")
            || str_eq(username, self.username.as_str()))
    }
}

/// A line with the leading and trailing whitespace removed.
pub open spec fn trim_spec(l: Seq<char>) -> Seq<char> {
    let a = skip_space_fwd(l, 0);
    let b = skip_space_back(l, l.len() as int);
    if a < b {
        l.subrange(a, b)
    } else {
        Seq::empty()
    }
}

/// How one line of the file reads, after trimming: a comment, blank, a
/// five-field entry, or malformed.
pub enum Line {
    Commented,
    Empty,
    Parsed(Entry),
    Malformed,
}

impl Line {
    /// Classifies one line.
    pub fn parse(s: &str) -> (r: Line)
        ensures
            ({
                let t = trim_spec(s@);
                if t.len() > 0 && t[0] == '#' {
                    r matches Line::Commented
                } else if t.len() == 0 {
                    r matches Line::Empty
                } else if take_fields(t, 0, 6).len() == 5 {
                    ({
                        let fs = take_fields(t, 0, 6);
                        r matches Line::Parsed(e) && e.hostname@ == fs[0] && e.port@ == fs[1]
                            && e.database@ == fs[2] && e.username@ == fs[3] && e.password@
                            == fs[4]
                    })
                } else {
                    r matches Line::Malformed
                }
            }),
    {
        let n = s.unicode_len();
        let mut a: usize = 0;
        while a < n && is_space(s.get_char(a))
            invariant
                n == s@.len(),
                0 <= a <= n,
                skip_space_fwd(s@, 0) == skip_space_fwd(s@, a as int),
            decreases n - a,
        {
            a = a + 1;
        }
        assert(skip_space_fwd(s@, 0) == a);
        let mut b: usize = n;
        while b > 0 && is_space(s.get_char(b - 1))
            invariant
                n == s@.len(),
                0 <= b <= n,
                skip_space_back(s@, n as int) == skip_space_back(s@, b as int),
            decreases b,
        {
            b = b - 1;
        }
        assert(skip_space_back(s@, n as int) == b);
        if a < b {
            let t = s.substring_char(a, b);
            assert(t@ == trim_spec(s@));
            if t.get_char(0) == '#' {
                Line::Commented
            } else {
                match Entry::parse(t) {
                    Some(e) => Line::Parsed(e),
                    None => Line::Malformed,
                }
            }
        } else {
            Line::Empty
        }
    }
}

/// What one line contributes: the password of an entry that matches the
/// options, if the line holds one.
pub open spec fn line_password(l: Seq<char>, o: ConnectionOptions) -> Option<Seq<char>> {
    let t = trim_spec(l);
    if t.len() > 0 && t[0] == '#' {
        Option::None
    } else if t.len() == 0 {
        Option::None
    } else if take_fields(t, 0, 6).len() == 5 {
        let fs = take_fields(t, 0, 6);
        if (fs[0] == "*"@ || o.host@ == fs[0]) && (fs[1] == "*"@ || o.port@ == fs[1]) && (fs[2]
            == "*"@ || o.dbname@ == fs[2]) && (fs[3] == "*"@ || o.user@ == fs[3]) {
            Option::Some(fs[4])
        } else {
            Option::None
        }
    } else {
        Option::None
    }
}

/// The password of the first line whose entry matches the options.
pub open spec fn first_password(lines: Seq<Seq<char>>, o: ConnectionOptions) -> Option<
    Seq<char>,
>
    decreases lines.len(),
{
    if lines.len() == 0 {
        Option::None
    } else if line_password(lines[0], o) is Some {
        line_password(lines[0], o)
    } else {
        first_password(lines.drop_first(), o)
    }
}

/// Finds the password for `options` in the text of a password file: the
/// first non-comment line whose entry matches the host, port, database and
/// user, reading `*` as a wildcard.
pub fn parse(contents: &str, options: &ConnectionOptions) -> (r: Option<String>)
    ensures
        ({
            let fp = first_password(lines_spec(contents@), *options);
            match r {
                Some(p) => fp matches Some(q) && q == p@,
                None => fp is None,
            }
        }),
{
    let lines = split_lines(contents);
    let ghost all = lines.deep_view();
    let mut k: usize = 0;
    proof {
        assert(all.skip(0) =~= all);
    }
    while k < lines.len()
        invariant
            k <= lines@.len(),
            all == lines.deep_view(),
            first_password(lines_spec(contents@), *options) == first_password(
                all.skip(k as int),
                *options,
            ),
        decreases lines@.len() - k,
    {
        proof {
            assert(all.skip(k as int)[0] == lines@[k as int]@);
            assert(all.skip(k as int).drop_first() =~= all.skip(k as int + 1));
        }
        match Line::parse(lines[k]) {
            Line::Parsed(e) => {
                if e.matches(
                    options.host.as_str(),
                    options.port.as_str(),
                    options.dbname.as_str(),
                    options.user.as_str(),
                ) {
                    return Some(e.password);
                }
            },
            _ => {},
        }
        k = k + 1;
    }
    proof {
        assert(all.skip(all.len() as int) =~= Seq::<Seq<char>>::empty());
    }
    None
}

} // verus!
