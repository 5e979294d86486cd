use vstd::prelude::*;
use vstd::string::*;
use vstd::utf8::*;

use core::marker::PhantomData;

use crate::document::{text_eq, Value, ValueModel};
use crate::entity::Entity;
use crate::error::{Error, ErrorKind};

verus! {

/// The lower-case hexadecimal digit of a value below sixteen.
pub open spec fn hex_digit(value: int) -> char {
    if 0 <= value < 10 {
        ('0' as u8 + value) as u8 as char
    } else {
        ('a' as u8 + value - 10) as u8 as char
    }
}

/// The value of a hexadecimal digit, in either case.
pub open spec fn digit_value(digit: char) -> Option<int> {
    if '0' <= digit <= '9' {
        Some(digit as int - '0' as int)
    } else if 'a' <= digit <= 'f' {
        Some(digit as int - 'a' as int + 10)
    } else if 'A' <= digit <= 'F' {
        Some(digit as int - 'A' as int + 10)
    } else {
        None
    }
}

/// The hexadecimal text of raw bytes: two lower-case digits for each byte, the high one first.
pub open spec fn hex_text(raw: Seq<u8>) -> Seq<char> {
    Seq::new(
        2 * raw.len(),
        |i: int|
            if i % 2 == 0 {
                hex_digit(raw[i / 2] as int / 16)
            } else {
                hex_digit(raw[i / 2] as int % 16)
            },
    )
}

/// The twelve raw bytes that a text of twenty-four hexadecimal digits stands for; no other text
/// stands for a raw identifier.
pub open spec fn raw_of_hex(text: Seq<char>) -> Option<Seq<u8>> {
    if text.len() == 24 && forall|i: int| 0 <= i < 24 ==> digit_value(#[trigger] text[i]).is_some() {
        Some(
            Seq::new(
                12,
                |i: int|
                    (16 * digit_value(text[2 * i]).unwrap() + digit_value(
                        text[2 * i + 1],
                    ).unwrap()) as u8,
            ),
        )
    } else {
        None
    }
}

/// The hexadecimal text of twelve raw bytes stands for those bytes.
pub proof fn lemma_hex_round_trip(raw: Seq<u8>)
    requires
        raw.len() == 12,
    ensures
        raw_of_hex(hex_text(raw)) == Some(raw),
{
    let text = hex_text(raw);
    assert forall|v: int| 0 <= v < 16 implies digit_value(#[trigger] hex_digit(v)) == Some(v) by {}
    assert forall|i: int| 0 <= i < 24 implies digit_value(#[trigger] text[i]).is_some() by {
        let b = raw[i / 2] as int;
        assert(0 <= b / 16 < 16 && 0 <= b % 16 < 16);
    }
    let back = raw_of_hex(text).unwrap();
    assert forall|i: int| 0 <= i < 12 implies back[i] == raw[i] by {
        let b = raw[i] as int;
        assert(0 <= b / 16 < 16 && 0 <= b % 16 < 16);
        assert(text[2 * i] == hex_digit(b / 16));
        assert(text[2 * i + 1] == hex_digit(b % 16));
    }
    assert(back =~= raw);
}

/// The URL-safe base64 text of bytes, with padding, as the `base64` crate writes it.
pub uninterp spec fn base64url(bytes: Seq<u8>) -> Seq<char>;

/// The bytes that the `base64` crate reads from a URL-safe base64 text, if it accepts the text.
pub uninterp spec fn base64url_bytes(text: Seq<char>) -> Option<Seq<u8>>;

/// The text that std makes of bytes when it replaces each invalid UTF-8 sequence by U+FFFD.
pub uninterp spec fn utf8_lossy(bytes: Seq<u8>) -> Seq<char>;

/// The error of `base64::decode_config`. Nothing of it is read.
#[verifier::external_type_specification]
#[verifier::external_body]
pub struct ExBase64DecodeError(base64::DecodeError);

/// Calls `base64::encode_config` with `base64::URL_SAFE`. The contract names the text and
/// claims that the crate's decoder reads the bytes back from it. The call cannot fail: it
/// panics only where the length of the text would not fit in `usize`, and no slice is that
/// long.
#[verifier::external_body]
fn encode_base64(bytes: &[u8]) -> (r: String)
    ensures
        r@ == base64url(bytes@),
        base64url_bytes(r@) == Some(bytes@),
{
    base64::encode_config(bytes, base64::URL_SAFE)
}

/// Calls `base64::decode_config` with `base64::URL_SAFE`. The contract names the bytes, and
/// says that the call fails exactly on the texts that stand for none.
#[verifier::external_body]
fn decode_base64(text: &str) -> (r: Result<Vec<u8>, base64::DecodeError>)
    ensures
        match r {
            Ok(bytes) => base64url_bytes(text@) == Some(bytes@),
            Err(_) => base64url_bytes(text@).is_none(),
        },
{
    base64::decode_config(text, base64::URL_SAFE)
}

/// Calls `String::from_utf8_lossy`. The contract names the text, and says that valid UTF-8 is
/// decoded as it stands.
#[verifier::external_body]
fn text_of_bytes(bytes: &[u8]) -> (r: String)
    ensures
        r@ == utf8_lossy(bytes@),
        valid_utf8(bytes@) ==> r@ == decode_utf8(bytes@),
{
    String::from_utf8_lossy(bytes).into_owned()
}

/// Calls `bson::oid::ObjectId::new` and hands out the bytes of the fresh identifier. They
/// depend on the clock, on the process and on a counter: nothing is claimed of them.
#[verifier::external_body]
fn fresh_raw_id() -> (r: [u8; 12]) {
    bson::oid::ObjectId::new().bytes()
}

/// Calls `bson::oid::ObjectId::to_hex`: two lower-case hexadecimal digits for each byte.
#[verifier::external_body]
fn hex_of_raw_id(raw: [u8; 12]) -> (r: String)
    ensures
        r@ == hex_text(raw@),
{
    bson::oid::ObjectId::from_bytes(raw).to_hex()
}

/// Calls `bson::oid::ObjectId::parse_str`: it accepts exactly the texts of twenty-four
/// hexadecimal digits, in either case, and reads two digits as one byte.
#[verifier::external_body]
fn raw_id_of_hex(text: &str) -> (r: Option<[u8; 12]>)
    ensures
        match r {
            Some(raw) => raw_of_hex(text@) == Some(raw@),
            None => raw_of_hex(text@).is_none(),
        },
{
    bson::oid::ObjectId::parse_str(text).ok().map(|id| id.bytes())
}

/// How often `mark` occurs in `text`.
pub open spec fn count_of(text: Seq<char>, mark: char) -> nat
    decreases text.len(),
{
    if text.len() == 0 {
        0
    } else {
        count_of(text.drop_last(), mark) + if text.last() == mark {
            1nat
        } else {
            0nat
        }
    }
}

/// The index of the first `mark` in `text`, or the length of `text` if it holds none.
pub open spec fn first_index(text: Seq<char>, mark: char) -> int
    decreases text.len(),
{
    if text.len() == 0 {
        0
    } else if text[0] == mark {
        0
    } else {
        1 + first_index(text.drop_first(), mark)
    }
}

/// The text that an identifier encodes: the name of its kind, a colon, and its raw bytes in
/// hexadecimal.
pub open spec fn payload_text(namespace: Seq<char>, raw: Seq<u8>) -> Seq<char> {
    namespace + seq![':'] + hex_text(raw)
}

/// The canonical text of an identifier: the URL-safe base64 of its payload.
pub open spec fn id_text(namespace: Seq<char>, raw: Seq<u8>) -> Seq<char> {
    base64url(encode_utf8(payload_text(namespace, raw)))
}

/// Why a text is no identifier.
#[derive(Clone, Copy, Debug, PartialEq, Eq, Structural)]
pub enum IdError {
    /// The text is no URL-safe base64.
    Encoding,
    /// The payload does not consist of exactly two segments with a colon between them.
    Format,
    /// The second segment is no raw identifier.
    RawId,
    /// The first segment is not the name of the expected kind.
    Namespace,
}

impl IdError {
    /// What the error says.
    pub open spec fn message(self) -> Seq<char> {
        match self {
            IdError::Encoding => "failed to decode base64"@,
            IdError::Format => "bad format"@,
            IdError::RawId => "failed to parse ObjectId"@,
            IdError::Namespace => "incorrect entity name"@,
        }
    }

    /// The error as an error of the persistence layer: an identifier format error with the
    /// one message.
    pub fn into_error(self) -> (r: Error)
        ensures
            r.spec_kind() == ErrorKind::IdentifierFormat,
            r.trail() == seq![self.message()],
    {
        match self {
            IdError::Encoding => Error::new(ErrorKind::IdentifierFormat, "failed to decode base64"),
            IdError::Format => Error::new(ErrorKind::IdentifierFormat, "bad format"),
            IdError::RawId => Error::new(ErrorKind::IdentifierFormat, "failed to parse ObjectId"),
            IdError::Namespace => Error::new(ErrorKind::IdentifierFormat, "incorrect entity name"),
        }
    }
}

/// The text that decoded bytes are read as.
pub open spec fn lossy_text(bytes: Seq<u8>) -> Seq<char> {
    if valid_utf8(bytes) {
        decode_utf8(bytes)
    } else {
        utf8_lossy(bytes)
    }
}

/// The namespace and the raw bytes that a payload holds.
pub open spec fn split_payload(payload: Seq<char>) -> Result<(Seq<char>, Seq<u8>), IdError> {
    if count_of(payload, ':') != 1 {
        Err(IdError::Format)
    } else {
        let at = first_index(payload, ':');
        match raw_of_hex(payload.skip(at + 1)) {
            Some(raw) => Ok((payload.take(at), raw)),
            None => Err(IdError::RawId),
        }
    }
}

/// The namespace and the raw bytes that the text of an identifier stands for.
pub open spec fn parsed_text(text: Seq<char>) -> Result<(Seq<char>, Seq<u8>), IdError> {
    match base64url_bytes(text) {
        Some(bytes) => split_payload(lossy_text(bytes)),
        None => Err(IdError::Encoding),
    }
}

/// The raw bytes that the text of an identifier of the kind `expected` stands for.
pub open spec fn parsed_id(text: Seq<char>, expected: Seq<char>) -> Result<Seq<u8>, IdError> {
    match parsed_text(text) {
        Ok((namespace, raw)) => if namespace == expected {
            Ok(raw)
        } else {
            Err(IdError::Namespace)
        },
        Err(fault) => Err(fault),
    }
}

/// A text that stands for an identifier of one kind stands for none of another kind.
pub proof fn lemma_other_namespace_is_rejected(text: Seq<char>, expected: Seq<char>)
    ensures
        parsed_text(text) matches Ok((namespace, raw)) ==> parsed_id(text, expected) == (if namespace
            == expected {
            Ok::<Seq<u8>, IdError>(raw)
        } else {
            Err::<Seq<u8>, IdError>(IdError::Namespace)
        }),
{
}

/// The text of an identifier stands for that identifier again, and for no identifier of
/// another kind, where the name of the kind holds no colon and the decoder reads back what
/// the encoder wrote.
pub proof fn lemma_id_text_round_trip(namespace: Seq<char>, raw: Seq<u8>, other: Seq<char>)
    requires
        count_of(namespace, ':') == 0,
        raw.len() == 12,
        base64url_bytes(id_text(namespace, raw)) == Some(encode_utf8(payload_text(namespace, raw))),
    ensures
        parsed_id(id_text(namespace, raw), namespace) == Ok::<Seq<u8>, IdError>(raw),
        other != namespace ==> parsed_id(id_text(namespace, raw), other) == Err::<Seq<u8>, IdError>(
            IdError::Namespace,
        ),
{
    let payload = payload_text(namespace, raw);
    encode_utf8_valid_utf8(payload);
    encode_utf8_decode_utf8(payload);
    lemma_payload_splits(namespace, raw);
}

/// `first_index` is the one index that holds the mark with none before it.
pub proof fn lemma_first_index_is(text: Seq<char>, mark: char, at: int)
    requires
        0 <= at <= text.len(),
        at < text.len() ==> text[at] == mark,
        forall|i: int| 0 <= i < at ==> text[i] != mark,
    ensures
        first_index(text, mark) == at,
    decreases text.len(),
{
    if text.len() != 0 && at != 0 {
        assert(text[0] != mark);
        let rest = text.drop_first();
        assert forall|i: int| 0 <= i < at - 1 implies rest[i] != mark by {
            assert(rest[i] == text[i + 1]);
        }
        lemma_first_index_is(rest, mark, at - 1);
    }
}

/// A text without the mark counts none, and counting goes through concatenation.
pub proof fn lemma_count_of(left: Seq<char>, right: Seq<char>, mark: char)
    ensures
        count_of(left + right, mark) == count_of(left, mark) + count_of(right, mark),
        (forall|i: int| 0 <= i < right.len() ==> right[i] != mark) ==> count_of(right, mark) == 0,
        count_of(right, mark) == 0 ==> forall|i: int| 0 <= i < right.len() ==> right[i] != mark,
    decreases right.len(),
{
    if right.len() == 0 {
        assert(left + right =~= left);
    } else {
        lemma_count_of(left, right.drop_last(), mark);
        assert((left + right).drop_last() =~= left + right.drop_last());
        assert forall|i: int| count_of(right, mark) == 0 && 0 <= i < right.len() implies right[i]
            != mark by {
            if i < right.len() - 1 {
                assert(right.drop_last()[i] == right[i]);
            }
        }
        if forall|i: int| 0 <= i < right.len() ==> right[i] != mark {
            assert forall|i: int| 0 <= i < right.drop_last().len() implies right.drop_last()[i]
                != mark by {
                assert(right.drop_last()[i] == right[i]);
            }
        }
    }
}

/// The payload of a namespace without a colon splits into that namespace and the raw bytes.
pub proof fn lemma_payload_splits(namespace: Seq<char>, raw: Seq<u8>)
    requires
        count_of(namespace, ':') == 0,
        raw.len() == 12,
    ensures
        split_payload(payload_text(namespace, raw)) == Ok::<_, IdError>((namespace, raw)),
{
    let hex = hex_text(raw);
    let payload = payload_text(namespace, raw);
    assert forall|i: int| 0 <= i < hex.len() implies hex[i] != ':' by {
        let b = raw[i / 2] as int;
        assert(0 <= b / 16 < 16 && 0 <= b % 16 < 16);
    }
    lemma_count_of(namespace, seq![':'], ':');
    lemma_count_of(namespace + seq![':'], hex, ':');
    assert(count_of(seq![':'], ':') == 1) by {
        assert(seq![':'].drop_last() =~= Seq::<char>::empty());
        assert(seq![':'].last() == ':');
        assert(count_of(Seq::<char>::empty(), ':') == 0);
        reveal_with_fuel(count_of, 2);
    }
    lemma_count_of(Seq::empty(), namespace, ':');
    lemma_first_index_is(payload, ':', namespace.len() as int);
    assert(payload.take(namespace.len() as int) =~= namespace);
    assert(payload.skip(namespace.len() as int + 1) =~= hex);
    lemma_hex_round_trip(raw);
}

/// The store's native identifier: twelve raw bytes.
#[derive(Clone, Copy, Debug, PartialEq, Eq, PartialOrd, Ord, Hash)]
pub struct ObjectId {
    raw: [u8; 12],
}

impl View for ObjectId {
    type V = Seq<u8>;

    closed spec fn view(&self) -> Seq<u8> {
        self.raw@
    }
}

impl ObjectId {
    /// A fresh identifier, as the store's client library generates it.
    pub fn new() -> (r: ObjectId)
        ensures
            r@.len() == 12,
    {
        ObjectId { raw: fresh_raw_id() }
    }

    /// The identifier with the given raw bytes.
    pub fn from_bytes(raw: [u8; 12]) -> (r: ObjectId)
        ensures
            r@ == raw@,
    {
        ObjectId { raw }
    }

    /// The raw bytes.
    pub fn bytes(&self) -> (r: [u8; 12])
        ensures
            r@ == self@,
    {
        self.raw
    }

    /// The raw bytes in hexadecimal.
    pub fn to_hex(&self) -> (r: String)
        ensures
            r@ == hex_text(self@),
    {
        hex_of_raw_id(self.raw)
    }

    /// The identifier that a text of twenty-four hexadecimal digits stands for.
    pub fn parse_str(text: &str) -> (r: Option<ObjectId>)
        ensures
            match r {
                Some(id) => raw_of_hex(text@) == Some(id@),
                None => raw_of_hex(text@).is_none(),
            },
    {
        match raw_id_of_hex(text) {
            Some(raw) => Some(ObjectId { raw }),
            None => None,
        }
    }

    /// Whether two identifiers have the same raw bytes.
    pub fn same(&self, other: &ObjectId) -> (r: bool)
        ensures
            r == (self@ == other@),
    {
        let mut i: usize = 0;
        while i < 12
            invariant
                i <= 12,
                forall|k: int| 0 <= k < i ==> self.raw@[k] == other.raw@[k],
            decreases 12 - i,
        {
            if self.raw[i] != other.raw[i] {
                return false;
            }
            i += 1;
        }
        assert(self.raw@ =~= other.raw@);
        true
    }
}

/// The place of the colon in a payload that holds exactly one.
fn single_colon(payload: &str) -> (r: Option<usize>)
    ensures
        match r {
            Some(at) => count_of(payload@, ':') == 1 && at == first_index(payload@, ':') && at
                < payload@.len(),
            None => count_of(payload@, ':') != 1,
        },
{
    let n = payload.unicode_len();
    let mut found: usize = 0;
    let mut at: usize = 0;
    let mut i: usize = 0;
    while i < n
        invariant
            i <= n,
            n == payload@.len(),
            found <= i,
            found == count_of(payload@.take(i as int), ':'),
            found > 0 ==> at < i && payload@[at as int] == ':' && forall|k: int|
                0 <= k < at ==> payload@[k] != ':',
            found == 0 ==> forall|k: int| 0 <= k < i ==> payload@[k] != ':',
        decreases n - i,
    {
        let c = payload.get_char(i);
        proof {
            assert(payload@.take(i as int + 1).drop_last() =~= payload@.take(i as int));
        }
        if c == ':' {
            if found == 0 {
                at = i;
            }
            found += 1;
        }
        i += 1;
    }
    proof {
        assert(payload@.take(n as int) =~= payload@);
    }
    if found == 1 {
        proof {
            lemma_first_index_is(payload@, ':', at as int);
        }
        Some(at)
    } else {
        None
    }
}

/// An identifier whose kind is not known statically: the name of the kind, and the raw
/// identifier.
#[derive(Debug, PartialEq, Eq)]
pub struct GlobalId {
    pub namespace: String,
    pub id: ObjectId,
}

impl GlobalId {
    /// The canonical text of the identifier.
    pub fn to_string(&self) -> (r: String)
        ensures
            r@ == id_text(self.namespace@, self.id@),
            count_of(self.namespace@, ':') == 0 ==> parsed_text(r@) == Ok::<_, IdError>(
                (self.namespace@, self.id@),
            ),
    {
        let mut payload = self.namespace.clone();
        payload.append(":");
        let hex = self.id.to_hex();
        payload.append(hex.as_str());
        proof {
            reveal_strlit(":");
            assert(":"@ =~= seq![':']);
            assert(payload@ == payload_text(self.namespace@, self.id@));
            encode_utf8_valid_utf8(payload@);
            encode_utf8_decode_utf8(payload@);
            if count_of(self.namespace@, ':') == 0 {
                lemma_payload_splits(self.namespace@, self.id@);
            }
        }
        encode_base64(payload.as_str().as_bytes())
    }

    /// The identifier that a text stands for.
    pub fn parse(text: &str) -> (r: Result<GlobalId, IdError>)
        ensures
            match r {
                Ok(id) => parsed_text(text@) == Ok::<_, IdError>((id.namespace@, id.id@)),
                Err(fault) => parsed_text(text@) == Err::<(Seq<char>, Seq<u8>), _>(fault),
            },
    {
        let bytes = match decode_base64(text) {
            Ok(bytes) => bytes,
            Err(_) => {
                return Err(IdError::Encoding);
            },
        };
        let payload = text_of_bytes(bytes.as_slice());
        let at = match single_colon(payload.as_str()) {
            Some(at) => at,
            None => {
                return Err(IdError::Format);
            },
        };
        let n = payload.as_str().unicode_len();
        let namespace = payload.as_str().substring_char(0, at);
        let hex = payload.as_str().substring_char(at + 1, n);
        proof {
            assert(payload@.subrange(0, at as int) =~= payload@.take(at as int));
            assert(payload@.subrange(at as int + 1, n as int) =~= payload@.skip(at as int + 1));
        }
        match ObjectId::parse_str(hex) {
            Some(id) => Ok(GlobalId { namespace: namespace.to_owned(), id }),
            None => Err(IdError::RawId),
        }
    }
}

/// The identifier of a record of the kind `T`. Identifiers of different kinds have different
/// types.
#[derive(Debug, PartialEq, Eq, PartialOrd, Ord, Hash)]
pub struct EntityId<T> {
    inner: ObjectId,
    _phantom: PhantomData<T>,
}

impl<T> Clone for EntityId<T> {
    fn clone(&self) -> (r: Self)
        ensures
            r == *self,
    {
        *self
    }
}

impl<T> Copy for EntityId<T> {

}

impl<T> View for EntityId<T> {
    type V = Seq<u8>;

    closed spec fn view(&self) -> Seq<u8> {
        self.inner@
    }
}

impl<T> EntityId<T> {
    /// A fresh identifier.
    pub fn new() -> (r: Self)
        ensures
            r@.len() == 12,
    {
        EntityId { inner: ObjectId::new(), _phantom: PhantomData }
    }

    /// The identifier of this kind with the given raw identifier.
    pub fn from_object_id(id: ObjectId) -> (r: Self)
        ensures
            r@ == id@,
    {
        EntityId { inner: id, _phantom: PhantomData }
    }

    /// The raw identifier.
    pub fn as_object_id(&self) -> (r: &ObjectId)
        ensures
            r@ == self@,
    {
        &self.inner
    }

    /// The raw identifier.
    pub fn to_object_id(&self) -> (r: ObjectId)
        ensures
            r@ == self@,
    {
        self.inner
    }

    /// Whether two identifiers are the same.
    pub fn same(&self, other: &Self) -> (r: bool)
        ensures
            r == (self@ == other@),
    {
        self.inner.same(&other.inner)
    }

    /// The identifier as a value of a document.
    pub fn to_value(&self) -> (r: Value)
        ensures
            r@ == ValueModel::ObjectId(self@),
    {
        Value::ObjectId(self.inner.bytes())
    }

    /// Identifiers of one kind with the same raw bytes are equal, and each has twelve bytes.
    pub proof fn lemma_same(self, other: Self)
        ensures
            self@.len() == 12,
            self@ == other@ ==> self == other,
    {
        if self@ == other@ {
            assert(self.inner.raw@ =~= other.inner.raw@);
            assert(self.inner.raw == other.inner.raw);
        }
    }
}

impl<T> Default for EntityId<T> {
    /// A fresh identifier.
    fn default() -> (r: Self)
        ensures
            r@.len() == 12,
    {
        Self::new()
    }
}

impl<T: Entity> core::str::FromStr for EntityId<T> {
    type Err = IdError;

    /// The identifier of this kind that a text stands for: what [`EntityId::parse`] returns.
    fn from_str(text: &str) -> (r: Result<Self, IdError>)
        ensures
            match r {
                Ok(id) => parsed_id(text@, T::NAME@) == Ok::<_, IdError>(id@),
                Err(fault) => parsed_id(text@, T::NAME@) == Err::<Seq<u8>, _>(fault),
            },
    {
        Self::parse(text)
    }
}

impl<T: Entity> EntityId<T> {
    /// The identifier with its kind as an explicit field.
    pub fn to_global(&self) -> (r: GlobalId)
        ensures
            r.namespace@ == T::NAME@,
            r.id@ == self@,
    {
        GlobalId { namespace: T::NAME.to_owned(), id: self.inner }
    }

    /// The canonical text of the identifier. Where the name of the kind holds no colon, the
    /// text stands for this identifier again.
    pub fn to_string(&self) -> (r: String)
        ensures
            r@ == id_text(T::NAME@, self@),
            count_of(T::NAME@, ':') == 0 ==> parsed_id(r@, T::NAME@) == Ok::<_, IdError>(self@),
    {
        self.to_global().to_string()
    }

    /// The identifier of this kind that a text stands for. A text for another kind is rejected.
    pub fn parse(text: &str) -> (r: Result<Self, IdError>)
        ensures
            match r {
                Ok(id) => parsed_id(text@, T::NAME@) == Ok::<_, IdError>(id@),
                Err(fault) => parsed_id(text@, T::NAME@) == Err::<Seq<u8>, _>(fault),
            },
    {
        match GlobalId::parse(text) {
            Ok(global) => {
                if text_eq(global.namespace.as_str(), T::NAME) {
                    Ok(EntityId::from_object_id(global.id))
                } else {
                    Err(IdError::Namespace)
                }
            },
            Err(fault) => Err(fault),
        }
    }
}

} // verus!
