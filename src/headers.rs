//! Header and session state: the single-valued header fields and the session
//! properties sent with every request, and how server responses update them.
use vstd::prelude::*;
use crate::error::PrestinoError;
use crate::request::{apply_response_headers, header_pairs_view};
use crate::session::{
    entries_map, entries_normalized, entries_sorted, entries_view, insert_entry,
    lemma_entries_map_at, lemma_map_of_sorted, lemma_sorted_entries_of, remove_entry,
    sorted_entries, Entry,
};
use crate::text::{
    ascii_lower, first_index_of, is_normalized, is_visible, is_visible_str, lex_lt,
    lemma_lex_irreflexive, lemma_normalized_subrange, lower_visible, split_once, str_eq, strip_prefix,
};
use crate::{header_name, Fork};

verus! {

/// The number of single-valued header fields.
pub const KEY_COUNT: usize = 11;

/// A single-valued header field, in the order in which fields are sent.
#[derive(Clone, Copy, Debug, PartialEq, Eq, Structural, PartialOrd, Ord, Hash)]
pub enum HeaderKey {
    /// The default catalog.
    Catalog,
    /// Free-form information about the client program.
    ClientInfo,
    /// The language for running the query and formatting results.
    Language,
    /// The role under which the query runs.
    Role,
    /// The default schema.
    Schema,
    /// The session properties; they are set one by one, never through this key.
    Session,
    /// The name of the software that submits the query.
    Source,
    /// The time zone of the session.
    Timezone,
    /// A token that marks the engine's log lines for this query.
    TraceToken,
    /// The transaction in which the query runs.
    TransactionId,
    /// The session user.
    User,
}

impl HeaderKey {
    pub open spec fn spec_index(self) -> int {
        match self {
            HeaderKey::Catalog => 0,
            HeaderKey::ClientInfo => 1,
            HeaderKey::Language => 2,
            HeaderKey::Role => 3,
            HeaderKey::Schema => 4,
            HeaderKey::Session => 5,
            HeaderKey::Source => 6,
            HeaderKey::Timezone => 7,
            HeaderKey::TraceToken => 8,
            HeaderKey::TransactionId => 9,
            HeaderKey::User => 10,
        }
    }

    pub open spec fn at(i: int) -> HeaderKey {
        if i == 0 {
            HeaderKey::Catalog
        } else if i == 1 {
            HeaderKey::ClientInfo
        } else if i == 2 {
            HeaderKey::Language
        } else if i == 3 {
            HeaderKey::Role
        } else if i == 4 {
            HeaderKey::Schema
        } else if i == 5 {
            HeaderKey::Session
        } else if i == 6 {
            HeaderKey::Source
        } else if i == 7 {
            HeaderKey::Timezone
        } else if i == 8 {
            HeaderKey::TraceToken
        } else if i == 9 {
            HeaderKey::TransactionId
        } else {
            HeaderKey::User
        }
    }

    pub fn index(&self) -> (r: usize)
        ensures
            r == self.spec_index(),
            Self::at(r as int) == *self,
    {
        match self {
            HeaderKey::Catalog => 0,
            HeaderKey::ClientInfo => 1,
            HeaderKey::Language => 2,
            HeaderKey::Role => 3,
            HeaderKey::Schema => 4,
            HeaderKey::Session => 5,
            HeaderKey::Source => 6,
            HeaderKey::Timezone => 7,
            HeaderKey::TraceToken => 8,
            HeaderKey::TransactionId => 9,
            HeaderKey::User => 10,
        }
    }

    pub fn from_index(i: usize) -> (r: HeaderKey)
        requires
            i < KEY_COUNT,
        ensures
            r == Self::at(i as int),
            r.spec_index() == i,
    {
        if i == 0 {
            HeaderKey::Catalog
        } else if i == 1 {
            HeaderKey::ClientInfo
        } else if i == 2 {
            HeaderKey::Language
        } else if i == 3 {
            HeaderKey::Role
        } else if i == 4 {
            HeaderKey::Schema
        } else if i == 5 {
            HeaderKey::Session
        } else if i == 6 {
            HeaderKey::Source
        } else if i == 7 {
            HeaderKey::Timezone
        } else if i == 8 {
            HeaderKey::TraceToken
        } else if i == 9 {
            HeaderKey::TransactionId
        } else {
            HeaderKey::User
        }
    }

    pub open spec fn spec_name(self) -> Seq<char> {
        match self {
            HeaderKey::Catalog => "catalog"@,
            HeaderKey::ClientInfo => "client-info"@,
            HeaderKey::Language => "language"@,
            HeaderKey::Role => "role"@,
            HeaderKey::Schema => "schema"@,
            HeaderKey::Session => "session"@,
            HeaderKey::Source => "source"@,
            HeaderKey::Timezone => "time-zone"@,
            HeaderKey::TraceToken => "trace-token"@,
            HeaderKey::TransactionId => "transaction-id"@,
            HeaderKey::User => "user"@,
        }
    }

    /// The header name of this field, without the fork's prefix.
    pub fn name(&self) -> (r: &'static str)
        ensures
            r@ == self.spec_name(),
    {
        match self {
            HeaderKey::Catalog => "catalog",
            HeaderKey::ClientInfo => "client-info",
            HeaderKey::Language => "language",
            HeaderKey::Role => "role",
            HeaderKey::Schema => "schema",
            HeaderKey::Session => "session",
            HeaderKey::Source => "source",
            HeaderKey::Timezone => "time-zone",
            HeaderKey::TraceToken => "trace-token",
            HeaderKey::TransactionId => "transaction-id",
            HeaderKey::User => "user",
        }
    }
}

/// What a `Headers` value holds: its fork, the header fields that are set, and
/// the session properties.
pub struct HeadersModel {
    pub fork: Fork,
    pub fields: Map<HeaderKey, Seq<char>>,
    pub session: Map<Seq<char>, Seq<char>>,
}

impl HeadersModel {
    pub open spec fn empty(fork: Fork) -> HeadersModel {
        HeadersModel { fork, fields: Map::empty(), session: Map::empty() }
    }

    pub open spec fn with_field(self, k: HeaderKey, v: Seq<char>) -> HeadersModel {
        HeadersModel { fork: self.fork, fields: self.fields.insert(k, v), session: self.session }
    }

    pub open spec fn without_field(self, k: HeaderKey) -> HeadersModel {
        HeadersModel { fork: self.fork, fields: self.fields.remove(k), session: self.session }
    }

    pub open spec fn with_property(self, k: Seq<char>, v: Seq<char>) -> HeadersModel {
        HeadersModel { fork: self.fork, fields: self.fields, session: self.session.insert(k, v) }
    }

    pub open spec fn without_property(self, k: Seq<char>) -> HeadersModel {
        HeadersModel { fork: self.fork, fields: self.fields, session: self.session.remove(k) }
    }

    /// Last writer wins: the fields and properties of `other` replace those of `self`.
    pub open spec fn merged(self, other: HeadersModel) -> HeadersModel {
        HeadersModel {
            fork: self.fork,
            fields: self.fields.union_prefer_right(other.fields),
            session: self.session.union_prefer_right(other.session),
        }
    }
}

/// The header pairs for the first `n` fields, in field order.
pub open spec fn fields_wire(fork: Fork, fields: Map<HeaderKey, Seq<char>>, n: nat) -> Seq<Entry>
    decreases n,
{
    if n == 0 {
        Seq::empty()
    } else {
        let prev = fields_wire(fork, fields, (n - 1) as nat);
        let k = HeaderKey::at(n - 1);
        if fields.contains_key(k) {
            prev.push((header_name(fork, k.spec_name()), fields[k]))
        } else {
            prev
        }
    }
}

/// `name=value` for one session property.
pub open spec fn property_text(e: Entry) -> Seq<char> {
    e.0 + "="@ + e.1
}

/// The properties joined by commas, in the order given.
pub open spec fn session_value(s: Seq<Entry>) -> Seq<char>
    decreases s.len(),
{
    if s.len() == 0 {
        Seq::empty()
    } else if s.len() == 1 {
        property_text(s[0])
    } else {
        session_value(s.drop_last()) + ","@ + property_text(s.last())
    }
}

/// The header pairs sent for `m`: every field that is set, in field order, then
/// one session header with the properties sorted by name, if any is set.
pub open spec fn wire(m: HeadersModel) -> Seq<Entry> {
    let es = sorted_entries(m.session);
    fields_wire(m.fork, m.fields, KEY_COUNT as nat) + if es.len() == 0 {
        Seq::<Entry>::empty()
    } else {
        seq![(header_name(m.fork, "session"@), session_value(es))]
    }
}

/// Where a response header `name: value` leads `m`; `None` where it is refused.
/// Names and values are compared and stored lower-cased; headers outside the
/// fork's prefix and unknown ones leave `m` as it is.
pub open spec fn response_update(m: HeadersModel, name: Seq<char>, value: Seq<char>) -> Option<
    HeadersModel,
> {
    if !is_visible(name) || !is_visible(value) {
        None
    } else {
        let n = ascii_lower(name);
        let v = ascii_lower(value);
        let p = m.fork.spec_prefix() + "-"@;
        if !(p.len() <= n.len() && n.subrange(0, p.len() as int) == p) {
            Some(m)
        } else {
            let key = n.skip(p.len() as int);
            if key == "set-catalog"@ {
                Some(m.with_field(HeaderKey::Catalog, v))
            } else if key == "set-schema"@ {
                Some(m.with_field(HeaderKey::Schema, v))
            } else if key == "set-session"@ {
                match first_index_of(v, '=') {
                    None => None,
                    Some(i) => Some(m.with_property(v.subrange(0, i), v.skip(i + 1))),
                }
            } else if key == "clear-session"@ {
                Some(m.without_property(v))
            } else if key == "set-role"@ {
                Some(m.with_field(HeaderKey::Role, v))
            } else if key == "started-transaction-id"@ {
                Some(m.with_field(HeaderKey::TransactionId, v))
            } else if key == "clear-transaction-id"@ {
                Some(m.without_field(HeaderKey::TransactionId))
            } else {
                Some(m)
            }
        }
    }
}

/// Check that `value` is visible ASCII and return it lower-cased; anything
/// else is a header parse error.
pub fn validate(value: &str) -> (r: Result<String, PrestinoError>)
    ensures
        r is Ok <==> is_visible(value@),
        r matches Ok(v) ==> v@ == ascii_lower(value@) && is_normalized(v@),
        r is Err ==> r == Err::<String, PrestinoError>(PrestinoError::HeaderParseError),
{
    if is_visible_str(value) {
        Ok(lower_visible(value))
    } else {
        Err(PrestinoError::HeaderParseError)
    }
}

/// Header and session state for one client or one statement.
#[derive(Clone, Debug)]
pub struct Headers {
    fork: Fork,
    fields: Vec<Option<String>>,
    session: Vec<(String, String)>,
}

impl View for Headers {
    type V = HeadersModel;

    closed spec fn view(&self) -> HeadersModel {
        HeadersModel {
            fork: self.fork,
            fields: Map::new(
                |k: HeaderKey| self.fields@[k.spec_index()] is Some,
                |k: HeaderKey| self.fields@[k.spec_index()]->0@,
            ),
            session: entries_map(entries_view(self.session@)),
        }
    }
}

pub proof fn lemma_key_index(k: HeaderKey)
    ensures
        0 <= k.spec_index() < KEY_COUNT,
        HeaderKey::at(k.spec_index()) == k,
{
}

impl Headers {
    /// The fields vector has a slot per key, the session slot stays empty,
    /// and every stored value and property is normalized; properties are sorted.
    pub closed spec fn wf(&self) -> bool {
        &&& self.fields@.len() == KEY_COUNT
        &&& self.fields@[HeaderKey::Session.spec_index()] is None
        &&& forall|i: int|
            0 <= i < KEY_COUNT && #[trigger] self.fields@[i] is Some ==> is_normalized(
                self.fields@[i]->0@,
            )
        &&& entries_sorted(entries_view(self.session@))
        &&& entries_normalized(entries_view(self.session@))
    }

    proof fn lemma_wf_entries(&self)
        requires
            self.wf(),
        ensures
            sorted_entries(self@.session) == entries_view(self.session@),
    {
        lemma_sorted_entries_of(entries_view(self.session@));
    }

    fn new(fork: Fork) -> (r: Self)
        ensures
            r.wf(),
            r@ == HeadersModel::empty(fork),
    {
        let mut fields: Vec<Option<String>> = Vec::new();
        let mut i: usize = 0;
        while i < KEY_COUNT
            invariant
                fields@.len() == i,
                i <= KEY_COUNT,
                forall|j: int| 0 <= j < i ==> #[trigger] fields@[j] is None,
            decreases KEY_COUNT - i,
        {
            fields.push(None);
            i = i + 1;
        }
        let r = Headers { fork, fields, session: Vec::new() };
        proof {
            assert forall|k: HeaderKey| !(#[trigger] r@.fields.contains_key(k)) by {
                lemma_key_index(k);
            }
            assert(r@.fields =~= Map::empty());
            assert(entries_view(r.session@) =~= Seq::<Entry>::empty());
            assert(r@.session =~= Map::empty());
        }
        r
    }

    /// Headers for Presto, with nothing set.
    pub fn presto() -> (r: Self)
        ensures
            r.wf(),
            r@ == HeadersModel::empty(Fork::Presto),
    {
        Self::new(Fork::Presto)
    }

    /// Headers for Trino, with nothing set.
    pub fn trino() -> (r: Self)
        ensures
            r.wf(),
            r@ == HeadersModel::empty(Fork::Trino),
    {
        Self::new(Fork::Trino)
    }

    /// Empty headers of the same fork as these.
    pub fn new_with_fork(&self) -> (r: Self)
        ensures
            r.wf(),
            r@ == HeadersModel::empty(self@.fork),
    {
        Self::new(self.fork)
    }

    pub fn fork(&self) -> (r: Fork)
        ensures
            r == self@.fork,
    {
        self.fork
    }

    /// Store a normalized value under a key other than the session key.
    fn put_field(&mut self, k: HeaderKey, v: String)
        requires
            old(self).wf(),
            k != HeaderKey::Session,
            is_normalized(v@),
        ensures
            final(self).wf(),
            final(self)@ == old(self)@.with_field(k, v@),
    {
        let ghost vv = v@;
        let i = k.index();
        self.fields.set(i, Some(v));
        proof {
            assert forall|kk: HeaderKey| #[trigger] self@.fields.contains_key(kk) == old(self)@.with_field(
                k,
                vv,
            ).fields.contains_key(kk) by {
                lemma_key_index(kk);
            }
            assert(self@.fields =~= old(self)@.with_field(k, vv).fields);
        }
    }

    fn drop_field(&mut self, k: HeaderKey)
        requires
            old(self).wf(),
        ensures
            final(self).wf(),
            final(self)@ == old(self)@.without_field(k),
    {
        let i = k.index();
        self.fields.set(i, None);
        proof {
            assert forall|kk: HeaderKey| #[trigger] self@.fields.contains_key(kk) == old(self)@.without_field(
                k,
            ).fields.contains_key(kk) by {
                lemma_key_index(kk);
            }
            assert(self@.fields =~= old(self)@.without_field(k).fields);
        }
    }

    /// Set a header field to `value`, lower-cased. The session key is refused
    /// (properties are set one by one), and so is a value with a character
    /// that is not visible ASCII; either way nothing changes.
    pub fn set_header(&mut self, key: HeaderKey, value: &str) -> (r: Result<(), PrestinoError>)
        requires
            old(self).wf(),
        ensures
            final(self).wf(),
            r is Ok <==> (key != HeaderKey::Session && is_visible(value@)),
            r is Ok ==> final(self)@ == old(self)@.with_field(key, ascii_lower(value@)),
            r is Err ==> final(self)@ == old(self)@ && r == Err::<(), PrestinoError>(
                PrestinoError::HeaderParseError,
            ),
    {
        if key == HeaderKey::Session {
            return Err(PrestinoError::HeaderParseError);
        }
        let v = validate(value)?;
        self.put_field(key, v);
        Ok(())
    }

    /// Set the session user.
    pub fn set_user(&mut self, user: &str) -> (r: Result<(), PrestinoError>)
        requires
            old(self).wf(),
        ensures
            final(self).wf(),
            r is Ok <==> is_visible(user@),
            r is Ok ==> final(self)@ == old(self)@.with_field(HeaderKey::User, ascii_lower(user@)),
            r is Err ==> final(self)@ == old(self)@ && r == Err::<(), PrestinoError>(
                PrestinoError::HeaderParseError,
            ),
    {
        self.set_header(HeaderKey::User, user)
    }

    /// Set session property `key` to `value`, both lower-cased, replacing an
    /// earlier value of `key`; a character that is not visible ASCII is refused.
    pub fn add_session_property(&mut self, key: &str, value: &str) -> (r: Result<(), PrestinoError>)
        requires
            old(self).wf(),
        ensures
            final(self).wf(),
            r is Ok <==> (is_visible(key@) && is_visible(value@)),
            r is Ok ==> final(self)@ == old(self)@.with_property(
                ascii_lower(key@),
                ascii_lower(value@),
            ),
            r is Err ==> final(self)@ == old(self)@ && r == Err::<(), PrestinoError>(
                PrestinoError::HeaderParseError,
            ),
    {
        let k = validate(key)?;
        let v = validate(value)?;
        insert_entry(&mut self.session, k, v);
        proof {
            assert(self@.fields =~= old(self)@.fields);
        }
        Ok(())
    }

    /// Remove session property `key` (compared lower-cased), if it is set.
    pub fn clear_session(&mut self, key: &str)
        requires
            old(self).wf(),
        ensures
            final(self).wf(),
            is_visible(key@) ==> final(self)@ == old(self)@.without_property(ascii_lower(key@)),
            !is_visible(key@) ==> final(self)@ == old(self)@,
    {
        if let Ok(k) = validate(key) {
            remove_entry(&mut self.session, k.as_str());
            proof {
                assert(self@.fields =~= old(self)@.fields);
            }
        } else {
            proof {
                assert(self@.session =~= old(self)@.session);
            }
        }
    }

    /// The header pairs to send: each field that is set, in field order, then
    /// the session header, `name=value` for each property sorted by name and
    /// joined by commas, if any property is set.
    pub fn get_headers(&self) -> (r: Vec<(String, String)>)
        requires
            self.wf(),
        ensures
            entries_view(r@) == wire(self@),
    {
        let mut out: Vec<(String, String)> = Vec::new();
        let mut i: usize = 0;
        while i < KEY_COUNT
            invariant
                self.wf(),
                i <= KEY_COUNT,
                entries_view(out@) == fields_wire(self@.fork, self@.fields, i as nat),
            decreases KEY_COUNT - i,
        {
            let key = HeaderKey::from_index(i);
            let ghost before = out@;
            match &self.fields[i] {
                Some(v) => {
                    let name = self.fork.name_for(key.name());
                    out.push((name, v.clone()));
                    assert(entries_view(out@) =~= entries_view(before).push((name@, v@)));
                },
                None => {},
            }
            i = i + 1;
        }
        let n = self.session.len();
        if n > 0 {
            let mut value = String::new();
            let mut j: usize = 0;
            let ghost ev = entries_view(self.session@);
            while j < n
                invariant
                    n == self.session@.len(),
                    ev == entries_view(self.session@),
                    j <= n,
                    value@ == session_value(ev.take(j as int)),
                decreases n - j,
            {
                if j > 0 {
                    value.append(",");
                }
                value.append(self.session[j].0.as_str());
                value.append("=");
                value.append(self.session[j].1.as_str());
                proof {
                    let t = ev.take(j + 1);
                    assert(t.drop_last() =~= ev.take(j as int));
                    if j == 0 {
                        assert(ev.take(0) =~= Seq::<Entry>::empty());
                    }
                }
                j = j + 1;
            }
            assert(ev.take(n as int) =~= ev);
            let name = self.fork.name_for(HeaderKey::Session.name());
            let ghost before = out@;
            out.push((name, value));
            proof {
                self.lemma_wf_entries();
                assert(entries_view(out@) =~= entries_view(before).push((name@, value@)));
                assert(entries_view(out@) =~= wire(self@));
            }
        } else {
            proof {
                self.lemma_wf_entries();
                assert(entries_view(out@) =~= wire(self@));
            }
        }
        out
    }

    /// Take over every field and property that `other` sets; where both set
    /// one, `other`'s value wins. Both must be of the same fork.
    pub fn update(&mut self, other: &Headers)
        requires
            old(self).wf(),
            other.wf(),
            old(self)@.fork == other@.fork,
        ensures
            final(self).wf(),
            final(self)@ == old(self)@.merged(other@),
    {
        let mut i: usize = 0;
        while i < KEY_COUNT
            invariant
                self.wf(),
                other.wf(),
                i <= KEY_COUNT,
                self.fork == old(self).fork,
                self.session == old(self).session,
                forall|j: int|
                    0 <= j < i ==> #[trigger] self.fields@[j] == if other.fields@[j] is Some {
                        other.fields@[j]
                    } else {
                        old(self).fields@[j]
                    },
                forall|j: int| i <= j < KEY_COUNT ==> #[trigger] self.fields@[j] == old(self).fields@[j],
            decreases KEY_COUNT - i,
        {
            match &other.fields[i] {
                Some(v) => {
                    let c = v.clone();
                    self.fields.set(i, Some(c));
                },
                None => {},
            }
            i = i + 1;
        }
        proof {
            assert forall|k: HeaderKey| #[trigger] self@.fields.contains_key(k) == old(self)@.merged(
                other@,
            ).fields.contains_key(k) by {
                lemma_key_index(k);
            }
            assert forall|k: HeaderKey| #[trigger] self@.fields.contains_key(k) implies self@.fields[k]
                == old(self)@.merged(other@).fields[k] by {
                lemma_key_index(k);
            }
            assert(self@.fields =~= old(self)@.merged(other@).fields);
        }
        let ghost fields_done = self@.fields;
        let n = other.session.len();
        let ghost oe = entries_view(other.session@);
        let mut j: usize = 0;
        while j < n
            invariant
                self.wf(),
                other.wf(),
                n == other.session@.len(),
                oe == entries_view(other.session@),
                j <= n,
                self@.fork == old(self)@.fork,
                self@.fields == fields_done,
                self@.session == old(self)@.session.union_prefer_right(entries_map(oe.take(j as int))),
            decreases n - j,
        {
            let k = other.session[j].0.clone();
            let v = other.session[j].1.clone();
            proof {
                assert(oe[j as int] == (k@, v@));
                assert(entries_normalized(oe));
                assert(oe.len() == n);
                let jj = j as int;
                assert(0 <= jj < oe.len());
                assert(is_normalized(oe[jj].0));
                assert(is_normalized(oe[jj].1));
            }
            insert_entry(&mut self.session, k, v);
            proof {
                lemma_take_one_more(oe, j as int);
                assert(self@.session =~= old(self)@.session.union_prefer_right(
                    entries_map(oe.take(j + 1)),
                ));
            }
            j = j + 1;
        }
        proof {
            assert(oe.take(n as int) =~= oe);
            assert(self@.session =~= old(self)@.merged(other@).session);
        }
    }
}

impl Headers {
    /// Apply one response header `name: value`, as `response_update` describes:
    /// the fork's `set-catalog`, `set-schema`, `set-session` (`key=value`),
    /// `clear-session`, `set-role`, `started-transaction-id` and
    /// `clear-transaction-id`. A character that is not visible ASCII, or a
    /// `set-session` value without `=`, is refused and changes nothing.
    pub fn update_from_response_header(&mut self, name: &str, value: &str) -> (r: Result<
        (),
        PrestinoError,
    >)
        requires
            old(self).wf(),
        ensures
            final(self).wf(),
            match response_update(old(self)@, name@, value@) {
                Some(m) => r is Ok && final(self)@ == m,
                None => r == Err::<(), PrestinoError>(PrestinoError::HeaderParseError)
                    && final(self)@ == old(self)@,
            },
    {
        let name_l = validate(name)?;
        let value_l = validate(value)?;
        let mut prefix = String::from_str(self.fork.prefix());
        prefix.append("-");
        let ghost v = value_l@;
        match strip_prefix(name_l.as_str(), prefix.as_str()) {
            None => Ok(()),
            Some(key) => {
                if str_eq(key, "set-catalog") {
                    self.put_field(HeaderKey::Catalog, value_l);
                } else if str_eq(key, "set-schema") {
                    self.put_field(HeaderKey::Schema, value_l);
                } else if str_eq(key, "set-session") {
                    match split_once(value_l.as_str(), '=') {
                        None => {
                            proof {
                                assert(first_index_of(v, '=') is None);
                            }
                            return Err(PrestinoError::HeaderParseError);
                        },
                        Some((k, w)) => {
                            let ks = k.to_owned();
                            let ws = w.to_owned();
                            proof {
                                let i0 = choose|i: int|
                                    0 <= i < v.len() && v[i] == '=' && (forall|j: int|
                                        0 <= j < i ==> v[j] != '=') && ks@ == v.subrange(0, i)
                                        && ws@ == v.skip(i + 1);
                                let i1 = first_index_of(v, '=')->0;
                                assert(first_index_of(v, '=') is Some);
                                if i0 < i1 {
                                    assert(v[i0] != '=');
                                } else if i1 < i0 {
                                    assert(v[i1] != '=');
                                }
                                lemma_normalized_subrange(v, 0, i0);
                                lemma_normalized_subrange(v, i0 + 1, v.len() as int);
                                assert(v.skip(i0 + 1) =~= v.subrange(i0 + 1, v.len() as int));
                            }
                            insert_entry(&mut self.session, ks, ws);
                            proof {
                                assert(self@.fields =~= old(self)@.fields);
                            }
                        },
                    }
                } else if str_eq(key, "clear-session") {
                    remove_entry(&mut self.session, value_l.as_str());
                    proof {
                        assert(self@.fields =~= old(self)@.fields);
                    }
                } else if str_eq(key, "set-role") {
                    self.put_field(HeaderKey::Role, value_l);
                } else if str_eq(key, "started-transaction-id") {
                    self.put_field(HeaderKey::TransactionId, value_l);
                } else if str_eq(key, "clear-transaction-id") {
                    self.drop_field(HeaderKey::TransactionId);
                }
                Ok(())
            },
        }
    }
}

impl Headers {
    /// Set the software that submits the query; a value that is not visible ASCII is refused.
    pub fn set_source(&mut self, source: &str) -> (r: Result<(), PrestinoError>)
        requires
            old(self).wf(),
        ensures
            final(self).wf(),
            r is Ok <==> is_visible(source@),
            r is Ok ==> final(self)@ == old(self)@.with_field(HeaderKey::Source, ascii_lower(source@)),
            r is Err ==> final(self)@ == old(self)@,
    {
        self.set_header(HeaderKey::Source, source)
    }

    /// Set the default catalog; a value that is not visible ASCII is refused.
    pub fn set_catalog(&mut self, catalog: &str) -> (r: Result<(), PrestinoError>)
        requires
            old(self).wf(),
        ensures
            final(self).wf(),
            r is Ok <==> is_visible(catalog@),
            r is Ok ==> final(self)@ == old(self)@.with_field(HeaderKey::Catalog, ascii_lower(catalog@)),
            r is Err ==> final(self)@ == old(self)@,
    {
        self.set_header(HeaderKey::Catalog, catalog)
    }

    /// Set the default schema; a value that is not visible ASCII is refused.
    pub fn set_schema(&mut self, schema: &str) -> (r: Result<(), PrestinoError>)
        requires
            old(self).wf(),
        ensures
            final(self).wf(),
            r is Ok <==> is_visible(schema@),
            r is Ok ==> final(self)@ == old(self)@.with_field(HeaderKey::Schema, ascii_lower(schema@)),
            r is Err ==> final(self)@ == old(self)@,
    {
        self.set_header(HeaderKey::Schema, schema)
    }

    /// Set the session time zone; a value that is not visible ASCII is refused.
    pub fn set_timezone(&mut self, timezone: &str) -> (r: Result<(), PrestinoError>)
        requires
            old(self).wf(),
        ensures
            final(self).wf(),
            r is Ok <==> is_visible(timezone@),
            r is Ok ==> final(self)@ == old(self)@.with_field(HeaderKey::Timezone, ascii_lower(timezone@)),
            r is Err ==> final(self)@ == old(self)@,
    {
        self.set_header(HeaderKey::Timezone, timezone)
    }

    /// Set the language for running the query and formatting results; a value that is not visible ASCII is refused.
    pub fn set_language(&mut self, language: &str) -> (r: Result<(), PrestinoError>)
        requires
            old(self).wf(),
        ensures
            final(self).wf(),
            r is Ok <==> is_visible(language@),
            r is Ok ==> final(self)@ == old(self)@.with_field(HeaderKey::Language, ascii_lower(language@)),
            r is Err ==> final(self)@ == old(self)@,
    {
        self.set_header(HeaderKey::Language, language)
    }

    /// Set the trace token that marks the engine's log lines; a value that is not visible ASCII is refused.
    pub fn set_trace_token(&mut self, trace_token: &str) -> (r: Result<(), PrestinoError>)
        requires
            old(self).wf(),
        ensures
            final(self).wf(),
            r is Ok <==> is_visible(trace_token@),
            r is Ok ==> final(self)@ == old(self)@.with_field(HeaderKey::TraceToken, ascii_lower(trace_token@)),
            r is Err ==> final(self)@ == old(self)@,
    {
        self.set_header(HeaderKey::TraceToken, trace_token)
    }

    /// Set the role under which the query runs; a value that is not visible ASCII is refused.
    pub fn set_role(&mut self, role: &str) -> (r: Result<(), PrestinoError>)
        requires
            old(self).wf(),
        ensures
            final(self).wf(),
            r is Ok <==> is_visible(role@),
            r is Ok ==> final(self)@ == old(self)@.with_field(HeaderKey::Role, ascii_lower(role@)),
            r is Err ==> final(self)@ == old(self)@,
    {
        self.set_header(HeaderKey::Role, role)
    }

    /// Set the transaction in which the query runs; a value that is not visible ASCII is refused.
    pub fn set_transaction_id(&mut self, transaction_id: &str) -> (r: Result<(), PrestinoError>)
        requires
            old(self).wf(),
        ensures
            final(self).wf(),
            r is Ok <==> is_visible(transaction_id@),
            r is Ok ==> final(self)@ == old(self)@.with_field(HeaderKey::TransactionId, ascii_lower(transaction_id@)),
            r is Err ==> final(self)@ == old(self)@,
    {
        self.set_header(HeaderKey::TransactionId, transaction_id)
    }

    /// Set the information about the client program; a value that is not visible ASCII is refused.
    pub fn set_client_info(&mut self, client_info: &str) -> (r: Result<(), PrestinoError>)
        requires
            old(self).wf(),
        ensures
            final(self).wf(),
            r is Ok <==> is_visible(client_info@),
            r is Ok ==> final(self)@ == old(self)@.with_field(HeaderKey::ClientInfo, ascii_lower(client_info@)),
            r is Err ==> final(self)@ == old(self)@,
    {
        self.set_header(HeaderKey::ClientInfo, client_info)
    }

    /// These headers with the session user set; the value must be visible ASCII.
    pub fn user(self, user: &str) -> (r: Self)
        requires
            self.wf(),
            is_visible(user@),
        ensures
            r.wf(),
            r@ == self@.with_field(HeaderKey::User, ascii_lower(user@)),
    {
        let mut h = self;
        let _ = h.set_header(HeaderKey::User, user);
        h
    }

    /// These headers with the software that submits the query set; the value must be visible ASCII.
    pub fn source(self, source: &str) -> (r: Self)
        requires
            self.wf(),
            is_visible(source@),
        ensures
            r.wf(),
            r@ == self@.with_field(HeaderKey::Source, ascii_lower(source@)),
    {
        let mut h = self;
        let _ = h.set_header(HeaderKey::Source, source);
        h
    }

    /// These headers with the default catalog set; the value must be visible ASCII.
    pub fn catalog(self, catalog: &str) -> (r: Self)
        requires
            self.wf(),
            is_visible(catalog@),
        ensures
            r.wf(),
            r@ == self@.with_field(HeaderKey::Catalog, ascii_lower(catalog@)),
    {
        let mut h = self;
        let _ = h.set_header(HeaderKey::Catalog, catalog);
        h
    }

    /// These headers with the default schema set; the value must be visible ASCII.
    pub fn schema(self, schema: &str) -> (r: Self)
        requires
            self.wf(),
            is_visible(schema@),
        ensures
            r.wf(),
            r@ == self@.with_field(HeaderKey::Schema, ascii_lower(schema@)),
    {
        let mut h = self;
        let _ = h.set_header(HeaderKey::Schema, schema);
        h
    }

    /// These headers with the session time zone set; the value must be visible ASCII.
    pub fn timezone(self, timezone: &str) -> (r: Self)
        requires
            self.wf(),
            is_visible(timezone@),
        ensures
            r.wf(),
            r@ == self@.with_field(HeaderKey::Timezone, ascii_lower(timezone@)),
    {
        let mut h = self;
        let _ = h.set_header(HeaderKey::Timezone, timezone);
        h
    }

    /// These headers with the language for running the query and formatting results set; the value must be visible ASCII.
    pub fn language(self, language: &str) -> (r: Self)
        requires
            self.wf(),
            is_visible(language@),
        ensures
            r.wf(),
            r@ == self@.with_field(HeaderKey::Language, ascii_lower(language@)),
    {
        let mut h = self;
        let _ = h.set_header(HeaderKey::Language, language);
        h
    }

    /// These headers with the trace token that marks the engine's log lines set; the value must be visible ASCII.
    pub fn trace_token(self, trace_token: &str) -> (r: Self)
        requires
            self.wf(),
            is_visible(trace_token@),
        ensures
            r.wf(),
            r@ == self@.with_field(HeaderKey::TraceToken, ascii_lower(trace_token@)),
    {
        let mut h = self;
        let _ = h.set_header(HeaderKey::TraceToken, trace_token);
        h
    }

    /// These headers with the role under which the query runs set; the value must be visible ASCII.
    pub fn role(self, role: &str) -> (r: Self)
        requires
            self.wf(),
            is_visible(role@),
        ensures
            r.wf(),
            r@ == self@.with_field(HeaderKey::Role, ascii_lower(role@)),
    {
        let mut h = self;
        let _ = h.set_header(HeaderKey::Role, role);
        h
    }

    /// These headers with the transaction in which the query runs set; the value must be visible ASCII.
    pub fn transaction_id(self, transaction_id: &str) -> (r: Self)
        requires
            self.wf(),
            is_visible(transaction_id@),
        ensures
            r.wf(),
            r@ == self@.with_field(HeaderKey::TransactionId, ascii_lower(transaction_id@)),
    {
        let mut h = self;
        let _ = h.set_header(HeaderKey::TransactionId, transaction_id);
        h
    }

    /// These headers with the information about the client program set; the value must be visible ASCII.
    pub fn client_info(self, client_info: &str) -> (r: Self)
        requires
            self.wf(),
            is_visible(client_info@),
        ensures
            r.wf(),
            r@ == self@.with_field(HeaderKey::ClientInfo, ascii_lower(client_info@)),
    {
        let mut h = self;
        let _ = h.set_header(HeaderKey::ClientInfo, client_info);
        h
    }

    /// Set session property `name` to `value`; see `add_session_property`.
    pub fn set_session(&mut self, name: &str, value: &str) -> (r: Result<(), PrestinoError>)
        requires
            old(self).wf(),
        ensures
            final(self).wf(),
            r is Ok <==> (is_visible(name@) && is_visible(value@)),
            r is Ok ==> final(self)@ == old(self)@.with_property(
                ascii_lower(name@),
                ascii_lower(value@),
            ),
            r is Err ==> final(self)@ == old(self)@,
    {
        self.add_session_property(name, value)
    }

    /// These headers with session property `name` set to `value`; both must be
    /// visible ASCII.
    pub fn session(self, name: &str, value: &str) -> (r: Self)
        requires
            self.wf(),
            is_visible(name@),
            is_visible(value@),
        ensures
            r.wf(),
            r@ == self@.with_property(ascii_lower(name@), ascii_lower(value@)),
    {
        let mut h = self;
        let _ = h.add_session_property(name, value);
        h
    }

    /// Remove the transaction id.
    pub fn clear_transaction_id(&mut self)
        requires
            old(self).wf(),
        ensures
            final(self).wf(),
            final(self)@ == old(self)@.without_field(HeaderKey::TransactionId),
    {
        self.drop_field(HeaderKey::TransactionId)
    }

    /// The value of a header field, if it is set.
    pub fn get(&self, key: HeaderKey) -> (r: Option<String>)
        requires
            self.wf(),
        ensures
            self@.fields.contains_key(key) ==> (r matches Some(v) && v@ == self@.fields[key]),
            !self@.fields.contains_key(key) ==> r is None,
    {
        match &self.fields[key.index()] {
            Some(v) => Some(v.clone()),
            None => None,
        }
    }

    /// Apply the response headers in order, as `update_from_response_header`
    /// does; stop at the first one that is refused, keeping those before it.
    pub fn update_from_response_headers(&mut self, response_headers: &Vec<(String, String)>) -> (r:
        Result<(), PrestinoError>)
        requires
            old(self).wf(),
        ensures
            final(self).wf(),
            match apply_response_headers(old(self)@, header_pairs_view(response_headers@)) {
                Some(m) => r is Ok && final(self)@ == m,
                None => r == Err::<(), PrestinoError>(PrestinoError::HeaderParseError),
            },
    {
        let ghost hs = header_pairs_view(response_headers@);
        let n = response_headers.len();
        let mut i: usize = 0;
        assert(hs.skip(0) =~= hs);
        while i < n
            invariant
                self.wf(),
                n == response_headers@.len(),
                hs == header_pairs_view(response_headers@),
                i <= n,
                apply_response_headers(old(self)@, hs) == apply_response_headers(
                    self@,
                    hs.skip(i as int),
                ),
            decreases n - i,
        {
            let r = self.update_from_response_header(
                response_headers[i].0.as_str(),
                response_headers[i].1.as_str(),
            );
            proof {
                assert(hs.skip(i as int)[0] == hs[i as int]);
                assert(hs.skip(i as int).drop_first() =~= hs.skip(i + 1));
            }
            match r {
                Err(e) => {
                    return Err(e);
                },
                Ok(()) => {},
            }
            i = i + 1;
        }
        proof {
            assert(hs.skip(n as int) =~= Seq::<(Seq<char>, Seq<char>)>::empty());
        }
        Ok(())
    }
}

proof fn lemma_take_one_more(s: Seq<Entry>, j: int)
    requires
        entries_sorted(s),
        0 <= j < s.len(),
    ensures
        entries_map(s.take(j + 1)) == entries_map(s.take(j)).insert(s[j].0, s[j].1),
{
    let t = s.take(j + 1);
    let u = s.take(j);
    let m = entries_map(u).insert(s[j].0, s[j].1);
    assert(entries_sorted(t));
    assert(entries_sorted(u));
    assert forall|i: int| 0 <= i < t.len() implies #[trigger] m.contains_key(t[i].0) && m[t[i].0]
        == t[i].1 by {
        if i < j {
            assert(lex_lt(s[i].0, s[j].0));
            if s[i].0 == s[j].0 {
                lemma_lex_irreflexive(s[j].0);
            }
            lemma_entries_map_at(u, i);
        }
    }
    assert forall|k: Seq<char>| #[trigger] m.contains_key(k) implies crate::session::has_name(t, k) by {
        if k == s[j].0 {
            assert(t[j].0 == k);
        } else {
            let i = choose|i: int| 0 <= i < u.len() && #[trigger] u[i].0 == k;
            assert(t[i].0 == k);
        }
    }
    lemma_map_of_sorted(t, m);
}

/// The session header lists every property exactly once, sorted by name: for
/// well-formed headers the list behind `wire` is sorted and stands for the
/// properties that are set.
pub proof fn lemma_session_sorted(h: &Headers)
    requires
        h.wf(),
    ensures
        entries_sorted(sorted_entries(h@.session)),
        entries_map(sorted_entries(h@.session)) == h@.session,
{
    h.lemma_wf_entries();
}

/// The order in which two different properties are set does not change the
/// headers that are sent.
pub proof fn lemma_property_order(
    m: HeadersModel,
    k1: Seq<char>,
    v1: Seq<char>,
    k2: Seq<char>,
    v2: Seq<char>,
)
    requires
        k1 != k2,
    ensures
        wire(m.with_property(k1, v1).with_property(k2, v2)) == wire(
            m.with_property(k2, v2).with_property(k1, v1),
        ),
{
    assert(m.with_property(k1, v1).with_property(k2, v2).session =~= m.with_property(
        k2,
        v2,
    ).with_property(k1, v1).session);
    assert(m.with_property(k1, v1).with_property(k2, v2) == m.with_property(k2, v2).with_property(
        k1,
        v1,
    ));
}

/// Merging is last writer wins: where both set a field or a property, the
/// value of the headers merged in second is kept; elsewhere each keeps its own.
pub proof fn lemma_merge_last_wins(a: HeadersModel, b: HeadersModel, f: HeaderKey, k: Seq<char>)
    ensures
        b.fields.contains_key(f) ==> a.merged(b).fields[f] == b.fields[f],
        !b.fields.contains_key(f) && a.fields.contains_key(f) ==> a.merged(b).fields[f]
            == a.fields[f],
        a.merged(b).fields.contains_key(f) <==> (a.fields.contains_key(f) || b.fields.contains_key(f)),
        b.session.contains_key(k) ==> a.merged(b).session[k] == b.session[k],
        !b.session.contains_key(k) && a.session.contains_key(k) ==> a.merged(b).session[k]
            == a.session[k],
        a.merged(b).session.contains_key(k) <==> (a.session.contains_key(k) || b.session.contains_key(
            k,
        )),
{
}

/// A property set and then cleared by the server's clear-session header is
/// gone: for any visible-ASCII name and value, the headers afterwards are
/// those of clearing it alone, and the property is no longer among them.
pub proof fn lemma_set_then_clear(m: HeadersModel, k: Seq<char>, v: Seq<char>)
    requires
        is_visible(k),
        is_visible(v),
    ensures
        response_update(
            m.with_property(ascii_lower(k), ascii_lower(v)),
            header_name(m.fork, "clear-session"@),
            k,
        ) == Some(m.without_property(ascii_lower(k))),
        !m.without_property(ascii_lower(k)).session.contains_key(ascii_lower(k)),
        wire(m.with_property(ascii_lower(k), ascii_lower(v)).without_property(ascii_lower(k)))
            == wire(m.without_property(ascii_lower(k))),
{
    reveal_strlit("x-presto");
    reveal_strlit("x-trino");
    reveal_strlit("-");
    reveal_strlit("clear-session");
    reveal_strlit("set-catalog");
    reveal_strlit("set-schema");
    reveal_strlit("set-session");
    let lk = ascii_lower(k);
    let mk = m.with_property(lk, ascii_lower(v));
    let name = header_name(m.fork, "clear-session"@);
    let p = m.fork.spec_prefix() + "-"@;
    assert(is_visible(name));
    assert(ascii_lower(name) =~= name);
    assert(name.subrange(0, p.len() as int) =~= p);
    assert(name.skip(p.len() as int) =~= "clear-session"@);
    assert(mk.without_property(lk).session =~= m.without_property(lk).session);
    assert(mk.without_property(lk) == m.without_property(lk));
}

/// The server's set-session header `name=value` sets that property: for a
/// visible-ASCII name without `=` and a visible-ASCII value, the property is
/// set, lower-cased, exactly as `add_session_property` would set it.
pub proof fn lemma_set_session_header(m: HeadersModel, k: Seq<char>, v: Seq<char>)
    requires
        is_visible(k),
        is_visible(v),
        forall|i: int| 0 <= i < k.len() ==> k[i] != '=',
    ensures
        response_update(m, header_name(m.fork, "set-session"@), k + "="@ + v) == Some(
            m.with_property(ascii_lower(k), ascii_lower(v)),
        ),
{
    reveal_strlit("x-presto");
    reveal_strlit("x-trino");
    reveal_strlit("-");
    reveal_strlit("=");
    reveal_strlit("set-catalog");
    reveal_strlit("set-schema");
    reveal_strlit("set-session");
    let name = header_name(m.fork, "set-session"@);
    let p = m.fork.spec_prefix() + "-"@;
    let value = k + "="@ + v;
    let lv = ascii_lower(value);
    assert(is_visible(name));
    assert(ascii_lower(name) =~= name);
    assert(name.subrange(0, p.len() as int) =~= p);
    assert(name.skip(p.len() as int) =~= "set-session"@);
    assert(is_visible(value)) by {
        assert forall|i: int| 0 <= i < value.len() implies crate::text::is_visible_char(
            #[trigger] value[i],
        ) by {
            if i < k.len() {
                assert(value[i] == k[i]);
            } else if i > k.len() {
                assert(value[i] == v[i - k.len() - 1]);
            }
        }
    }
    let n = k.len() as int;
    assert(lv[n] == '=');
    assert forall|j: int| 0 <= j < n implies lv[j] != '=' by {
        assert(value[j] == k[j]);
    }
    let i = first_index_of(lv, '=')->0;
    assert(first_index_of(lv, '=') is Some);
    if i < n {
        assert(lv[i] != '=');
    } else if i > n {
        assert(lv[n] != '=');
    }
    assert(first_index_of(lv, '=') == Some(n));
    assert(lv.subrange(0, n) =~= ascii_lower(k));
    assert(lv.skip(n + 1) =~= ascii_lower(v));
    let key = ascii_lower(name).skip(p.len() as int);
    assert(key == "set-session"@);
    assert("set-session"@[4] != "set-catalog"@[4]);
}

} // verus!
