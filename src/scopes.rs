//! The capability vocabulary (`Scope`) and sets of capabilities (`ScopeSet`).
use vstd::prelude::*;
use vstd::string::*;

verus! {

/// A named capability that a token may carry.
#[derive(Clone, Copy, Debug, PartialEq, Eq, Structural, Hash)]
pub enum Scope {
    RoomsRead,
    RoomsWrite,
    ZonesRead,
    ZonesWrite,
    StatsRead,
    UserRead,
    UserWrite,
    Admin,
}

/// The wire name of a scope.
pub open spec fn scope_name(s: Scope) -> Seq<char> {
    match s {
        Scope::RoomsRead => "rooms:read"@,
        Scope::RoomsWrite => "rooms:write"@,
        Scope::ZonesRead => "zones:read"@,
        Scope::ZonesWrite => "zones:write"@,
        Scope::StatsRead => "stats:read"@,
        Scope::UserRead => "user:read"@,
        Scope::UserWrite => "user:write"@,
        Scope::Admin => "admin"@,
    }
}

/// The scope whose wire name is `t`, if any.
pub open spec fn scope_from_name(t: Seq<char>) -> Option<Scope> {
    if t == "rooms:read"@ {
        Some(Scope::RoomsRead)
    } else if t == "rooms:write"@ {
        Some(Scope::RoomsWrite)
    } else if t == "zones:read"@ {
        Some(Scope::ZonesRead)
    } else if t == "zones:write"@ {
        Some(Scope::ZonesWrite)
    } else if t == "stats:read"@ {
        Some(Scope::StatsRead)
    } else if t == "user:read"@ {
        Some(Scope::UserRead)
    } else if t == "user:write"@ {
        Some(Scope::UserWrite)
    } else if t == "admin"@ {
        Some(Scope::Admin)
    } else {
        None
    }
}

pub open spec fn all_scopes() -> Seq<Scope> {
    seq![
        Scope::RoomsRead,
        Scope::RoomsWrite,
        Scope::ZonesRead,
        Scope::ZonesWrite,
        Scope::StatsRead,
        Scope::UserRead,
        Scope::UserWrite,
        Scope::Admin,
    ]
}

pub open spec fn default_scope_seq() -> Seq<Scope> {
    seq![
        Scope::RoomsRead,
        Scope::RoomsWrite,
        Scope::ZonesRead,
        Scope::ZonesWrite,
        Scope::StatsRead,
        Scope::UserRead,
    ]
}

/// The error of scope parsing: a token that names no scope.
#[derive(Debug, PartialEq, Eq)]
pub enum ScopeError {
    UnknownScope(String),
    /// The storage form was not a JSON array of strings.
    NotAStringArray,
}

/// Whether two strings hold the same characters.
pub fn text_eq(a: &str, b: &str) -> (r: bool)
    ensures
        r == (a@ == b@),
{
    a.to_owned() == b.to_owned()
}

impl Scope {
    pub fn as_str(&self) -> (r: &'static str)
        ensures
            r@ == scope_name(*self),
    {
        match self {
            Scope::RoomsRead => "rooms:read",
            Scope::RoomsWrite => "rooms:write",
            Scope::ZonesRead => "zones:read",
            Scope::ZonesWrite => "zones:write",
            Scope::StatsRead => "stats:read",
            Scope::UserRead => "user:read",
            Scope::UserWrite => "user:write",
            Scope::Admin => "admin",
        }
    }

    pub fn all() -> (r: Vec<Scope>)
        ensures
            r@ == all_scopes(),
    {
        let r = vec![
            Scope::RoomsRead,
            Scope::RoomsWrite,
            Scope::ZonesRead,
            Scope::ZonesWrite,
            Scope::StatsRead,
            Scope::UserRead,
            Scope::UserWrite,
            Scope::Admin,
        ];
        assert(r@ =~= all_scopes());
        r
    }

    pub fn default_scopes() -> (r: Vec<Scope>)
        ensures
            r@ == default_scope_seq(),
    {
        let r = vec![
            Scope::RoomsRead,
            Scope::RoomsWrite,
            Scope::ZonesRead,
            Scope::ZonesWrite,
            Scope::StatsRead,
            Scope::UserRead,
        ];
        assert(r@ =~= default_scope_seq());
        r
    }

    /// Parses one wire name; an unknown name is an error that carries it.
    pub fn from_str(s: &str) -> (r: Result<Scope, ScopeError>)
        ensures
            match r {
                Ok(sc) => scope_from_name(s@) == Some(sc),
                Err(ScopeError::UnknownScope(t)) => scope_from_name(s@) is None && t@ == s@,
                Err(ScopeError::NotAStringArray) => false,
            },
    {
        if text_eq(s, "rooms:read") {
            Ok(Scope::RoomsRead)
        } else if text_eq(s, "rooms:write") {
            Ok(Scope::RoomsWrite)
        } else if text_eq(s, "zones:read") {
            Ok(Scope::ZonesRead)
        } else if text_eq(s, "zones:write") {
            Ok(Scope::ZonesWrite)
        } else if text_eq(s, "stats:read") {
            Ok(Scope::StatsRead)
        } else if text_eq(s, "user:read") {
            Ok(Scope::UserRead)
        } else if text_eq(s, "user:write") {
            Ok(Scope::UserWrite)
        } else if text_eq(s, "admin") {
            Ok(Scope::Admin)
        } else {
            Err(ScopeError::UnknownScope(s.to_owned()))
        }
    }
}

/// Whitespace, which separates scope names on the wire: the characters with
/// Unicode's White_Space property, as `char::is_whitespace` has them.
pub open spec fn is_space(c: char) -> bool {
    let n = c as u32;
    (0x9 <= n && n <= 0xD) || n == 0x20 || n == 0x85 || n == 0xA0 || n == 0x1680
        || (0x2000 <= n && n <= 0x200A) || n == 0x2028 || n == 0x2029 || n == 0x202F
        || n == 0x205F || n == 0x3000
}

pub fn is_space_char(c: char) -> (r: bool)
    ensures
        r == is_space(c),
{
    let n = c as u32;
    (0x9 <= n && n <= 0xD) || n == 0x20 || n == 0x85 || n == 0xA0 || n == 0x1680
        || (0x2000 <= n && n <= 0x200A) || n == 0x2028 || n == 0x2029 || n == 0x202F
        || n == 0x205F || n == 0x3000
}

/// `cur` as a word, unless it is empty.
pub open spec fn flush_word(cur: Seq<char>) -> Seq<Seq<char>> {
    if cur.len() == 0 {
        seq![]
    } else {
        seq![cur]
    }
}

/// The words of `s`, the maximal runs of non-space characters, where the
/// run `cur` has already been read before `s`.
pub open spec fn words_from(s: Seq<char>, cur: Seq<char>) -> Seq<Seq<char>>
    decreases s.len(),
{
    if s.len() == 0 {
        flush_word(cur)
    } else if is_space(s[0]) {
        flush_word(cur) + words_from(s.drop_first(), seq![])
    } else {
        words_from(s.drop_first(), cur.push(s[0]))
    }
}

/// The whitespace-separated words of `s`.
pub open spec fn words(s: Seq<char>) -> Seq<Seq<char>> {
    words_from(s, seq![])
}

pub type ScopeSetModel = Set<Scope>;

/// Every word names a scope.
pub open spec fn all_known(ws: Seq<Seq<char>>) -> bool {
    forall|i: int| 0 <= i < ws.len() ==> (#[trigger] scope_from_name(ws[i])) is Some
}

/// The scopes that the words name.
pub open spec fn scopes_named(ws: Seq<Seq<char>>) -> Set<Scope> {
    Set::new(|sc: Scope| exists|i: int| 0 <= i < ws.len() && scope_from_name(ws[i]) == Some(sc))
}

/// The wire form of a sequence of scopes: their names joined by single spaces.
pub open spec fn join_names(s: Seq<Scope>) -> Seq<char>
    decreases s.len(),
{
    if s.len() == 0 {
        seq![]
    } else if s.len() == 1 {
        scope_name(s[0])
    } else {
        join_names(s.drop_last()) + " "@ + scope_name(s.last())
    }
}

/// Membership as scope checks see it: `admin` grants every scope.
pub open spec fn grants(set: Set<Scope>, s: Scope) -> bool {
    set.contains(s) || set.contains(Scope::Admin)
}

/// The characters of a string, in order.
pub fn chars_of(s: &str) -> (r: Vec<char>)
    ensures
        r@ == s@,
{
    let mut r: Vec<char> = Vec::new();
    for c in it: s.chars()
        invariant
            r@ == it.seq().take(it.index() as int),
    {
        r.push(c);
        assert(r@ =~= it.seq().take(it.index() as int + 1));
    }
    proof {
        broadcast use vstd::string::axiom_spec_iter;
    }
    assert(r@ =~= s@);
    r
}

/// Relies on std's `FromIterator<char>` for `String`: the string holds the
/// characters in order.
#[verifier::external_body]
pub(crate) fn string_of_chars(v: &[char]) -> (r: String)
    ensures
        r@ == v@,
{
    v.iter().collect()
}

pub open spec fn string_views(v: Seq<String>) -> Seq<Seq<char>> {
    v.map_values(|s: String| s@)
}

/// The JSON strings of a JSON array of strings, if `s` is one.
pub uninterp spec fn json_string_list(s: Seq<char>) -> Option<Seq<Seq<char>>>;

pub open spec fn opt_string_views(v: Option<Vec<String>>) -> Option<Seq<Seq<char>>> {
    match v {
        Some(v) => Some(string_views(v@)),
        None => None,
    }
}

/// Relies on serde_json's `from_str::<Vec<String>>`: the strings of a JSON
/// array of strings, or `None` for any other text; a function of the text.
#[verifier::external_body]
fn parse_json_strings(s: &str) -> (r: Option<Vec<String>>)
    ensures
        opt_string_views(r) == json_string_list(s@),
{
    serde_json::from_str::<Vec<String>>(s).ok()
}

/// The storage form of a sequence of scopes: a JSON array of their names.
pub open spec fn json_names(s: Seq<Scope>) -> Seq<char>
    decreases s.len(),
{
    if s.len() == 0 {
        "[]"@
    } else {
        let inner = json_names(s.drop_last());
        inner.take(inner.len() - 1) + (if s.len() == 1 { seq![] } else { seq![','] })
            + seq!['"'] + scope_name(s.last()) + seq!['"', ']']
    }
}

/// The whitespace-separated words of `s`, in order.
pub fn split_words(s: &str) -> (r: Vec<String>)
    ensures
        string_views(r@) == words(s@),
{
    let cs = chars_of(s);
    let mut out: Vec<String> = Vec::new();
    let mut cur: Vec<char> = Vec::new();
    let mut i: usize = 0;
    assert(cs@.skip(0) =~= cs@);
    while i < cs.len()
        invariant
            i <= cs.len(),
            cs@ == s@,
            string_views(out@) + words_from(cs@.skip(i as int), cur@) == words(s@),
        decreases cs.len() - i,
    {
        let c = cs[i];
        let ghost rest = cs@.skip(i as int);
        assert(rest.drop_first() =~= cs@.skip(i as int + 1));
        assert(rest[0] == c);
        if is_space_char(c) {
            if cur.len() > 0 {
                let ghost cw = cur@;
                let w = string_of_chars(cur.as_slice());
                let ghost before = string_views(out@);
                out.push(w);
                assert(string_views(out@) =~= before.push(cw));
                assert(string_views(out@) + words_from(cs@.skip(i as int + 1), seq![]) =~= words(s@));
                cur = Vec::new();
            } else {
                assert(cur@ =~= seq![]);
                assert(string_views(out@) + words_from(cs@.skip(i as int + 1), seq![]) =~= words(s@));
            }
        } else {
            assert(words_from(rest, cur@) == words_from(cs@.skip(i as int + 1), cur@.push(c)));
            cur.push(c);
        }
        i += 1;
    }
    if cur.len() > 0 {
        let ghost cw = cur@;
        let w = string_of_chars(cur.as_slice());
        let ghost before = string_views(out@);
        out.push(w);
        assert(string_views(out@) =~= before.push(cw));
        assert(string_views(out@) =~= words(s@));
    } else {
        assert(string_views(out@) =~= words(s@));
    }
    out
}

/// A set of scopes, kept as a sequence without repeats in the order of
/// first insertion (the order in which the wire form lists them).
#[derive(Debug)]
pub struct ScopeSet {
    items: Vec<Scope>,
}

impl Clone for ScopeSet {
    fn clone(&self) -> (r: Self)
        ensures
            r.seq() == self.seq(),
            r@ == self@,
    {
        proof {
            use_type_invariant(self);
        }
        let items = self.items.clone();
        assert(items@ =~= self.items@);
        ScopeSet { items }
    }
}

impl View for ScopeSet {
    type V = Set<Scope>;

    open spec fn view(&self) -> Set<Scope> {
        self.seq().to_set()
    }
}

impl ScopeSet {
    #[verifier::type_invariant]
    spec fn inv(&self) -> bool {
        self.items@.no_duplicates()
    }

    /// The members in wire order.
    pub closed spec fn seq(&self) -> Seq<Scope> {
        self.items@
    }

    pub fn new() -> (r: Self)
        ensures
            r.seq() == Seq::<Scope>::empty(),
            r@ == Set::<Scope>::empty(),
    {
        let r = ScopeSet { items: Vec::new() };
        assert(r@ =~= Set::<Scope>::empty());
        r
    }

    pub fn from_vec(scopes: Vec<Scope>) -> (r: Self)
        ensures
            r@ == scopes@.to_set(),
    {
        let mut r = ScopeSet::new();
        for i in 0..scopes.len()
            invariant
                r@ == scopes@.take(i as int).to_set(),
        {
            r.insert(scopes[i]);
            assert(scopes@.take(i as int + 1) =~= scopes@.take(i as int).push(scopes@[i as int]));
            proof {
                scopes@.take(i as int).lemma_push_to_set_commute(scopes@[i as int]);
            }
        }
        assert(scopes@.take(scopes.len() as int) =~= scopes@);
        r
    }

    pub fn insert(&mut self, scope: Scope)
        ensures
            final(self)@ == old(self)@.insert(scope),
            old(self)@.contains(scope) ==> final(self).seq() == old(self).seq(),
            !old(self)@.contains(scope) ==> final(self).seq() == old(self).seq().push(scope),
    {
        proof {
            use_type_invariant(&*self);
            self.items@.lemma_push_to_set_commute(scope);
        }
        let mut found = false;
        for i in 0..self.items.len()
            invariant
                found == (exists|j: int| 0 <= j < i && self.items@[j] == scope),
        {
            if self.items[i] == scope {
                found = true;
            }
        }
        if !found {
            let mut items = self.items.clone();
            assert(items@ =~= self.items@);
            items.push(scope);
            *self = ScopeSet { items };
        } else {
            assert(old(self)@ =~= old(self)@.insert(scope));
        }
    }

    pub fn contains(&self, scope: &Scope) -> (r: bool)
        ensures
            r == grants(self@, *scope),
    {
        let mut lit = false;
        let mut admin = false;
        for i in 0..self.items.len()
            invariant
                lit == (exists|j: int| 0 <= j < i && self.items@[j] == *scope),
                admin == (exists|j: int| 0 <= j < i && self.items@[j] == Scope::Admin),
        {
            if self.items[i] == *scope {
                lit = true;
            }
            if self.items[i] == Scope::Admin {
                admin = true;
            }
        }
        lit || admin
    }

    pub fn has_any(&self, required: &[Scope]) -> (r: bool)
        ensures
            r == (self@.contains(Scope::Admin) || exists|i: int|
                0 <= i < required@.len() && self@.contains(#[trigger] required@[i])),
    {
        if self.contains(&Scope::Admin) {
            return true;
        }
        for i in 0..required.len()
            invariant
                !self@.contains(Scope::Admin),
                forall|j: int| 0 <= j < i ==> !self@.contains(#[trigger] required@[j]),
        {
            if self.contains(&required[i]) {
                return true;
            }
        }
        false
    }

    pub fn is_empty(&self) -> (r: bool)
        ensures
            r == (self@ == Set::<Scope>::empty()),
    {
        if self.items.len() == 0 {
            assert(self@ =~= Set::<Scope>::empty());
            true
        } else {
            assert(self@.contains(self.items@[0]));
            false
        }
    }

    pub fn len(&self) -> (r: usize)
        ensures
            r == self@.len(),
    {
        proof {
            use_type_invariant(self);
            self.items@.unique_seq_to_set();
        }
        self.items.len()
    }

    /// The members in wire order.
    pub fn iter(&self) -> (r: Vec<Scope>)
        ensures
            r@ == self.seq(),
            r@.to_set() == self@,
    {
        let r = self.items.clone();
        assert(r@ =~= self.items@);
        r
    }

    pub fn is_subset_of(&self, other: &ScopeSet) -> (r: bool)
        ensures
            r == self@.subset_of(other@),
    {
        for i in 0..self.items.len()
            invariant
                forall|j: int| 0 <= j < i ==> other@.contains(#[trigger] self.items@[j]),
        {
            let mut found = false;
            for k in 0..other.items.len()
                invariant
                    i < self.items.len(),
                    found == (exists|j: int| 0 <= j < k && other.items@[j] == self.items@[i as int]),
            {
                if other.items[k] == self.items[i] {
                    found = true;
                }
            }
            if !found {
                assert(self@.contains(self.items@[i as int]));
                return false;
            }
        }
        true
    }

    /// Parses the wire form. Parsing is strict: a word that names no scope
    /// is an error, and the first such word is reported.
    pub fn from_string(scopes_str: &str) -> (r: Result<Self, ScopeError>)
        ensures
            r is Ok <==> all_known(words(scopes_str@)),
            r matches Ok(set) ==> set@ == scopes_named(words(scopes_str@)),
            r matches Err(ScopeError::UnknownScope(w)) ==> words(scopes_str@).contains(w@)
                && scope_from_name(w@) is None,
    {
        let cs = chars_of(scopes_str);
        let mut set = ScopeSet::new();
        let mut cur: Vec<char> = Vec::new();
        let ghost mut done: Seq<Seq<char>> = seq![];
        let mut i: usize = 0;
        proof {
            assert(cs@.skip(0) =~= cs@);
        }
        while i < cs.len()
            invariant
                i <= cs.len(),
                cs@ == scopes_str@,
                done + words_from(cs@.skip(i as int), cur@) == words(scopes_str@),
                all_known(done),
                set@ == scopes_named(done),
            decreases cs.len() - i,
        {
            let c = cs[i];
            let ghost rest = cs@.skip(i as int);
            assert(rest.drop_first() =~= cs@.skip(i as int + 1));
            assert(rest[0] == c);
            if is_space_char(c) {
                if cur.len() > 0 {
                    let w = string_of_chars(cur.as_slice());
                    let ghost cw = cur@;
                    proof {
                        assert(words_from(rest, cw) == seq![cw] + words_from(cs@.skip(i as int + 1), seq![]));
                        assert(words(scopes_str@) == (done + seq![cw]) + words_from(cs@.skip(i as int + 1), seq![]));
                        assert(words(scopes_str@)[done.len() as int] == cw);
                    }
                    match Scope::from_str(w.as_str()) {
                        Ok(sc) => {
                            set.insert(sc);
                            proof {
                                let nd = done.push(cw);
                                assert(forall|k: int| 0 <= k < done.len() ==> nd[k] == done[k]);
                                assert(nd[done.len() as int] == cw);
                                assert(all_known(nd));
                                assert forall|x: Scope| #[trigger] set@.contains(x) == scopes_named(nd).contains(x) by {
                                    if x == sc {
                                        assert(scope_from_name(nd[done.len() as int]) == Some(x));
                                    }
                                    if scopes_named(nd).contains(x) {
                                        let k = choose|k: int| 0 <= k < nd.len() && scope_from_name(nd[k]) == Some(x);
                                        if k < done.len() {
                                            assert(scopes_named(done).contains(x));
                                        }
                                    }
                                    if scopes_named(done).contains(x) {
                                        let k = choose|k: int| 0 <= k < done.len() && scope_from_name(done[k]) == Some(x);
                                        assert(nd[k] == done[k]);
                                    }
                                }
                                assert(set@ =~= scopes_named(nd));
                                assert(nd + words_from(cs@.skip(i as int + 1), seq![]) =~= words(scopes_str@));
                                done = nd;
                            }
                        },
                        Err(e) => {
                            return Err(e);
                        },
                    }
                    cur = Vec::new();
                } else {
                    assert(cur@ =~= seq![]);
                    assert(flush_word(cur@) =~= seq![]);
                    assert(done + words_from(cs@.skip(i as int + 1), seq![]) =~= words(scopes_str@));
                }
            } else {
                assert(words_from(rest, cur@) == words_from(cs@.skip(i as int + 1), cur@.push(c)));
                cur.push(c);
            }
            i += 1;
        }
        let ghost tail = cs@.skip(i as int);
        assert(tail.len() == 0);
        if cur.len() > 0 {
            let w = string_of_chars(cur.as_slice());
            let ghost cw = cur@;
            assert(words(scopes_str@) == done.push(cw));
            assert(words(scopes_str@)[done.len() as int] == cw);
            match Scope::from_str(w.as_str()) {
                Ok(sc) => {
                    set.insert(sc);
                    proof {
                        let nd = done.push(cw);
                        assert(forall|k: int| 0 <= k < done.len() ==> nd[k] == done[k]);
                        assert(all_known(nd));
                        assert forall|x: Scope| #[trigger] set@.contains(x) == scopes_named(nd).contains(x) by {
                            if x == sc {
                                assert(scope_from_name(nd[done.len() as int]) == Some(x));
                            }
                            if scopes_named(nd).contains(x) {
                                let k = choose|k: int| 0 <= k < nd.len() && scope_from_name(nd[k]) == Some(x);
                                if k < done.len() {
                                    assert(scopes_named(done).contains(x));
                                }
                            }
                            if scopes_named(done).contains(x) {
                                let k = choose|k: int| 0 <= k < done.len() && scope_from_name(done[k]) == Some(x);
                                assert(nd[k] == done[k]);
                            }
                        }
                        assert(set@ =~= scopes_named(nd));
                    }
                    Ok(set)
                },
                Err(e) => Err(e),
            }
        } else {
            assert(words(scopes_str@) =~= done);
            Ok(set)
        }
    }

    /// The storage form: a JSON array of the names, in wire order.
    pub fn to_json_array(&self) -> (r: String)
        ensures
            r@ == json_names(self.seq()),
    {
        let mut body = String::new();
        proof {
            reveal_strlit("[");
            reveal_strlit("]");
            reveal_strlit("[]");
            assert("["@ + body@ + "]"@ =~= "[]"@);
            assert(self.items@.take(0) =~= Seq::<Scope>::empty());
        }
        for i in 0..self.items.len()
            invariant
                "["@ + body@ + "]"@ == json_names(self.items@.take(i as int)),
        {
            let ghost pre = self.items@.take(i as int + 1);
            assert(pre.drop_last() =~= self.items@.take(i as int));
            proof {
                reveal_strlit("[");
                reveal_strlit("]");
                reveal_strlit(",");
                reveal_strlit("\"");
            }
            let ghost before = body@;
            if i > 0 {
                body.append(",");
            }
            body.append("\"");
            body.append(self.items[i].as_str());
            body.append("\"");
            proof {
                let inner = "["@ + before + "]"@;
                assert(inner.take(inner.len() - 1) =~= "["@ + before);
                assert("["@ + body@ + "]"@ =~= json_names(pre));
            }
        }
        assert(self.items@.take(self.items.len() as int) =~= self.items@);
        let mut r = String::from_str("[");
        r.append(body.as_str());
        r.append("]");
        r
    }

    /// Parses the storage form: a JSON array of scope names. Anything but
    /// an array of strings is `NotAStringArray`; an unknown name is
    /// `UnknownScope`.
    pub fn from_json_array(json: &str) -> (r: Result<Self, ScopeError>)
        ensures
            match json_string_list(json@) {
                None => r == Err::<Self, ScopeError>(ScopeError::NotAStringArray),
                Some(ws) => (r is Ok <==> all_known(ws))
                    && (r matches Ok(set) ==> set@ == scopes_named(ws))
                    && (r matches Err(e) ==> e is UnknownScope),
            },
    {
        let names = match parse_json_strings(json) {
            None => return Err(ScopeError::NotAStringArray),
            Some(v) => v,
        };
        let ghost ws = string_views(names@);
        assert(ws.len() == names@.len());
        let mut set = ScopeSet::new();
        for i in 0..names.len()
            invariant
                ws == string_views(names@),
                ws.len() == names@.len(),
                json_string_list(json@) == Some(ws),
                forall|j: int| 0 <= j < i ==> (#[trigger] scope_from_name(ws[j])) is Some,
                set@ == scopes_named(ws.take(i as int)),
        {
            match Scope::from_str(names[i].as_str()) {
                Err(e) => {
                    assert(scope_from_name(ws[i as int]) is None);
                    return Err(e);
                },
                Ok(sc) => {
                    set.insert(sc);
                    proof {
                        let pre = ws.take(i as int);
                        let nd = ws.take(i as int + 1);
                        assert forall|x: Scope| #[trigger] set@.contains(x) == scopes_named(nd).contains(x) by {
                            if x == sc {
                                assert(scope_from_name(nd[i as int]) == Some(x));
                            }
                            if scopes_named(nd).contains(x) {
                                let k = choose|k: int| 0 <= k < nd.len() && scope_from_name(nd[k]) == Some(x);
                                if k < i {
                                    assert(nd[k] == pre[k]);
                                    assert(scopes_named(pre).contains(x));
                                }
                            }
                            if scopes_named(pre).contains(x) {
                                let k = choose|k: int| 0 <= k < pre.len() && scope_from_name(pre[k]) == Some(x);
                                assert(nd[k] == pre[k]);
                            }
                        }
                        assert(set@ =~= scopes_named(nd));
                    }
                },
            }
        }
        assert(ws.take(names.len() as int) =~= ws);
        Ok(set)
    }

    /// The wire form: the names joined by single spaces.
    pub fn to_string(&self) -> (r: String)
        ensures
            r@ == join_names(self.seq()),
    {
        let mut r = String::new();
        for i in 0..self.items.len()
            invariant
                r@ == join_names(self.items@.take(i as int)),
        {
            assert(self.items@.take(i as int + 1).drop_last() =~= self.items@.take(i as int));
            if i > 0 {
                r.append(" ");
            }
            r.append(self.items[i].as_str());
        }
        assert(self.items@.take(self.items.len() as int) =~= self.items@);
        r
    }
}


proof fn lemma_scope_name_round_trip(s: Scope)
    ensures
        scope_from_name(scope_name(s)) == Some(s),
        scope_name(s).len() > 0,
        forall|i: int| 0 <= i < scope_name(s).len() ==> !is_space(#[trigger] scope_name(s)[i]),
{
    reveal_strlit("rooms:read");
    reveal_strlit("rooms:write");
    reveal_strlit("zones:read");
    reveal_strlit("zones:write");
    reveal_strlit("stats:read");
    reveal_strlit("user:read");
    reveal_strlit("user:write");
    reveal_strlit("admin");
    let n = scope_name(s);
    match s {
        Scope::RoomsRead => {},
        Scope::RoomsWrite => { assert(n[6] != "rooms:read"@[6]); },
        Scope::ZonesRead => { assert(n[0] != "rooms:write"@[0]); assert(n[0] != "rooms:read"@[0]); },
        Scope::ZonesWrite => { assert(n[0] != "rooms:write"@[0]); assert(n[6] != "zones:read"@[6]); },
        Scope::StatsRead => { assert(n[0] != "rooms:write"@[0]); assert(n[0] != "zones:write"@[0]); },
        Scope::UserRead => { assert(n[0] != "rooms:write"@[0]); assert(n[0] != "zones:write"@[0]); assert(n[0] != "stats:read"@[0]); },
        Scope::UserWrite => { assert(n[0] != "rooms:write"@[0]); assert(n[0] != "zones:write"@[0]); assert(n[0] != "stats:read"@[0]); assert(n[5] != "user:read"@[5]); },
        Scope::Admin => { assert(n[0] != "rooms:write"@[0]); assert(n[0] != "zones:write"@[0]); assert(n[0] != "stats:read"@[0]); assert(n[0] != "user:read"@[0]); },
    }
}

/// A run without spaces read after `cur` is one word with it.
proof fn lemma_words_of_run(w: Seq<char>, cur: Seq<char>)
    requires
        forall|i: int| 0 <= i < w.len() ==> !is_space(#[trigger] w[i]),
    ensures
        words_from(w, cur) == flush_word(cur + w),
    decreases w.len(),
{
    if w.len() == 0 {
        assert(cur + w =~= cur);
    } else {
        assert(cur.push(w[0]) + w.drop_first() =~= cur + w);
        assert forall|i: int| 0 <= i < w.drop_first().len() implies !is_space(#[trigger] w.drop_first()[i]) by {
            assert(w.drop_first()[i] == w[i + 1]);
        }
        lemma_words_of_run(w.drop_first(), cur.push(w[0]));
    }
}

/// A space separates: the words of `x + " " + y` are those of `x`, then
/// those of `y`.
proof fn lemma_words_split(x: Seq<char>, y: Seq<char>, cur: Seq<char>)
    ensures
        words_from(x + seq![' '] + y, cur) == words_from(x, cur) + words(y),
    decreases x.len(),
{
    let s = x + seq![' '] + y;
    if x.len() == 0 {
        assert(s[0] == ' ');
        assert(s.drop_first() =~= y);
    } else {
        assert(s[0] == x[0]);
        assert(s.drop_first() =~= x.drop_first() + seq![' '] + y);
        if is_space(x[0]) {
            lemma_words_split(x.drop_first(), y, seq![]);
            assert(flush_word(cur) + (words_from(x.drop_first(), seq![]) + words(y))
                =~= (flush_word(cur) + words_from(x.drop_first(), seq![])) + words(y));
        } else {
            lemma_words_split(x.drop_first(), y, cur.push(x[0]));
        }
    }
}

pub open spec fn scope_names(q: Seq<Scope>) -> Seq<Seq<char>> {
    q.map_values(|s: Scope| scope_name(s))
}

proof fn lemma_words_of_join(q: Seq<Scope>)
    ensures
        words(join_names(q)) == scope_names(q),
    decreases q.len(),
{
    if q.len() == 0 {
        assert(words(join_names(q)) =~= scope_names(q));
    } else {
        lemma_scope_name_round_trip(q.last());
        lemma_words_of_run(scope_name(q.last()), seq![]);
        assert(seq![] + scope_name(q.last()) =~= scope_name(q.last()));
        if q.len() == 1 {
            assert(scope_names(q) =~= seq![scope_name(q[0])]);
        } else {
            lemma_words_of_join(q.drop_last());
            assert(" "@ =~= seq![' ']) by {
                reveal_strlit(" ");
            }
            lemma_words_split(join_names(q.drop_last()), scope_name(q.last()), seq![]);
            assert(scope_names(q) =~= scope_names(q.drop_last()) + seq![scope_name(q.last())]);
        }
    }
}

/// The wire form round-trips: parsing the names of any sequence of scopes,
/// joined by spaces, succeeds and gives back exactly the scopes of the
/// sequence. So `ScopeSet::from_string(&s.to_string())` equals `s`.
pub proof fn law_scope_wire_round_trip(q: Seq<Scope>)
    ensures
        all_known(words(join_names(q))),
        scopes_named(words(join_names(q))) == q.to_set(),
{
    lemma_words_of_join(q);
    let ws = words(join_names(q));
    assert forall|i: int| 0 <= i < ws.len() implies (#[trigger] scope_from_name(ws[i])) is Some by {
        lemma_scope_name_round_trip(q[i]);
    }
    assert forall|x: Scope| #[trigger] scopes_named(ws).contains(x) == q.to_set().contains(x) by {
        if q.to_set().contains(x) {
            let i = choose|i: int| 0 <= i < q.len() && q[i] == x;
            lemma_scope_name_round_trip(q[i]);
            assert(scope_from_name(ws[i]) == Some(x));
        }
        if scopes_named(ws).contains(x) {
            let i = choose|i: int| 0 <= i < ws.len() && scope_from_name(ws[i]) == Some(x);
            lemma_scope_name_round_trip(q[i]);
            assert(q[i] == x);
        }
    }
    assert(scopes_named(ws) =~= q.to_set());
}

} // verus!
