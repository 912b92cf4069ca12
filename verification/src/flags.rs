//! The capability tags of characteristics and descriptors, and the tokens
//! that stand for them on the wire.

use vstd::prelude::*;
use crate::error::{GattError, GattErrorView, invalid_variant, invalid_variant_detail};
use crate::property::texts_of;
use crate::text::same_text;

verus! {

/// How the value of a characteristic may be used.
#[derive(Debug, Clone, Copy, PartialEq, Eq, Structural)]
pub enum CharacteristicFlags {
    Broadcast,
    Read,
    WriteWithoutResponse,
    Write,
    Notify,
    Indicate,
    AuthenticatedSignedWrites,
    ExtendedProperties,
    ReliableWrite,
    WritableAuxiliaries,
    EncryptRead,
    EncryptWrite,
    EncryptNotify,
    EncryptIndicate,
    EncryptAuthenticatedRead,
    EncryptAuthenticatedWrite,
    EncryptAuthenticatedNotify,
    EncryptAuthenticatedIndicate,
    SecureRead,
    SecureWrite,
    SecureNotify,
    SecureIndicate,
    Authorize,
}

impl CharacteristicFlags {
    /// The token that stands for the flag on the wire.
    pub open spec fn text(self) -> Seq<char> {
        match self {
            CharacteristicFlags::Broadcast => "broadcast"@,
            CharacteristicFlags::Read => "read"@,
            CharacteristicFlags::WriteWithoutResponse => "write-without-response"@,
            CharacteristicFlags::Write => "write"@,
            CharacteristicFlags::Notify => "notify"@,
            CharacteristicFlags::Indicate => "indicate"@,
            CharacteristicFlags::AuthenticatedSignedWrites => "authenticated-signed-writes"@,
            CharacteristicFlags::ExtendedProperties => "extended-properties"@,
            CharacteristicFlags::ReliableWrite => "reliable-write"@,
            CharacteristicFlags::WritableAuxiliaries => "writable-auxiliaries"@,
            CharacteristicFlags::EncryptRead => "encrypt-read"@,
            CharacteristicFlags::EncryptWrite => "encrypt-write"@,
            CharacteristicFlags::EncryptNotify => "encrypt-notify"@,
            CharacteristicFlags::EncryptIndicate => "encrypt-indicate"@,
            CharacteristicFlags::EncryptAuthenticatedRead => "encrypt-authenticated-read"@,
            CharacteristicFlags::EncryptAuthenticatedWrite => "encrypt-authenticated-write"@,
            CharacteristicFlags::EncryptAuthenticatedNotify => "encrypt-authenticated-notify"@,
            CharacteristicFlags::EncryptAuthenticatedIndicate => "encrypt-authenticated-indicate"@,
            CharacteristicFlags::SecureRead => "secure-read"@,
            CharacteristicFlags::SecureWrite => "secure-write"@,
            CharacteristicFlags::SecureNotify => "secure-notify"@,
            CharacteristicFlags::SecureIndicate => "secure-indicate"@,
            CharacteristicFlags::Authorize => "authorize"@,
        }
    }

    /// The length of the flag's token and its first character.
    spec fn shape(self) -> (nat, char) {
        match self {
            CharacteristicFlags::Broadcast => (9, 'b'),
            CharacteristicFlags::Read => (4, 'r'),
            CharacteristicFlags::WriteWithoutResponse => (22, 'w'),
            CharacteristicFlags::Write => (5, 'w'),
            CharacteristicFlags::Notify => (6, 'n'),
            CharacteristicFlags::Indicate => (8, 'i'),
            CharacteristicFlags::AuthenticatedSignedWrites => (27, 'a'),
            CharacteristicFlags::ExtendedProperties => (19, 'e'),
            CharacteristicFlags::ReliableWrite => (14, 'r'),
            CharacteristicFlags::WritableAuxiliaries => (20, 'w'),
            CharacteristicFlags::EncryptRead => (12, 'e'),
            CharacteristicFlags::EncryptWrite => (13, 'e'),
            CharacteristicFlags::EncryptNotify => (14, 'e'),
            CharacteristicFlags::EncryptIndicate => (16, 'e'),
            CharacteristicFlags::EncryptAuthenticatedRead => (26, 'e'),
            CharacteristicFlags::EncryptAuthenticatedWrite => (27, 'e'),
            CharacteristicFlags::EncryptAuthenticatedNotify => (28, 'e'),
            CharacteristicFlags::EncryptAuthenticatedIndicate => (30, 'e'),
            CharacteristicFlags::SecureRead => (11, 's'),
            CharacteristicFlags::SecureWrite => (12, 's'),
            CharacteristicFlags::SecureNotify => (13, 's'),
            CharacteristicFlags::SecureIndicate => (15, 's'),
            CharacteristicFlags::Authorize => (9, 'a'),
        }
    }

    /// The shape of a flag's token is the one listed for it.
    proof fn lemma_shape(self)
        ensures
            self.text().len() == self.shape().0,
            self.text()[0] == self.shape().1,
    {
        reveal_strlit("broadcast");
        reveal_strlit("read");
        reveal_strlit("write-without-response");
        reveal_strlit("write");
        reveal_strlit("notify");
        reveal_strlit("indicate");
        reveal_strlit("authenticated-signed-writes");
        reveal_strlit("extended-properties");
        reveal_strlit("reliable-write");
        reveal_strlit("writable-auxiliaries");
        reveal_strlit("encrypt-read");
        reveal_strlit("encrypt-write");
        reveal_strlit("encrypt-notify");
        reveal_strlit("encrypt-indicate");
        reveal_strlit("encrypt-authenticated-read");
        reveal_strlit("encrypt-authenticated-write");
        reveal_strlit("encrypt-authenticated-notify");
        reveal_strlit("encrypt-authenticated-indicate");
        reveal_strlit("secure-read");
        reveal_strlit("secure-write");
        reveal_strlit("secure-notify");
        reveal_strlit("secure-indicate");
        reveal_strlit("authorize");
    }

    /// No two flags share a token.
    pub proof fn lemma_text_injective(a: CharacteristicFlags, b: CharacteristicFlags)
        requires
            a.text() == b.text(),
        ensures
            a == b,
    {
        a.lemma_shape();
        b.lemma_shape();
    }

    /// The token of the flag.
    pub fn as_str(&self) -> (token: &'static str)
        ensures
            token@ == self.text(),
    {
        match self {
            CharacteristicFlags::Broadcast => "broadcast",
            CharacteristicFlags::Read => "read",
            CharacteristicFlags::WriteWithoutResponse => "write-without-response",
            CharacteristicFlags::Write => "write",
            CharacteristicFlags::Notify => "notify",
            CharacteristicFlags::Indicate => "indicate",
            CharacteristicFlags::AuthenticatedSignedWrites => "authenticated-signed-writes",
            CharacteristicFlags::ExtendedProperties => "extended-properties",
            CharacteristicFlags::ReliableWrite => "reliable-write",
            CharacteristicFlags::WritableAuxiliaries => "writable-auxiliaries",
            CharacteristicFlags::EncryptRead => "encrypt-read",
            CharacteristicFlags::EncryptWrite => "encrypt-write",
            CharacteristicFlags::EncryptNotify => "encrypt-notify",
            CharacteristicFlags::EncryptIndicate => "encrypt-indicate",
            CharacteristicFlags::EncryptAuthenticatedRead => "encrypt-authenticated-read",
            CharacteristicFlags::EncryptAuthenticatedWrite => "encrypt-authenticated-write",
            CharacteristicFlags::EncryptAuthenticatedNotify => "encrypt-authenticated-notify",
            CharacteristicFlags::EncryptAuthenticatedIndicate => "encrypt-authenticated-indicate",
            CharacteristicFlags::SecureRead => "secure-read",
            CharacteristicFlags::SecureWrite => "secure-write",
            CharacteristicFlags::SecureNotify => "secure-notify",
            CharacteristicFlags::SecureIndicate => "secure-indicate",
            CharacteristicFlags::Authorize => "authorize",
        }
    }

    /// The flag whose token is `m`, if any.
    fn lookup(m: &str) -> (found: Option<CharacteristicFlags>)
        ensures
            match found {
                Some(f) => f.text() == m@,
                None => forall|f: CharacteristicFlags| f.text() != m@,
            },
    {
        if same_text(m, "broadcast") {
            Some(CharacteristicFlags::Broadcast)
        } else if same_text(m, "read") {
            Some(CharacteristicFlags::Read)
        } else if same_text(m, "write-without-response") {
            Some(CharacteristicFlags::WriteWithoutResponse)
        } else if same_text(m, "write") {
            Some(CharacteristicFlags::Write)
        } else if same_text(m, "notify") {
            Some(CharacteristicFlags::Notify)
        } else if same_text(m, "indicate") {
            Some(CharacteristicFlags::Indicate)
        } else if same_text(m, "authenticated-signed-writes") {
            Some(CharacteristicFlags::AuthenticatedSignedWrites)
        } else if same_text(m, "extended-properties") {
            Some(CharacteristicFlags::ExtendedProperties)
        } else if same_text(m, "reliable-write") {
            Some(CharacteristicFlags::ReliableWrite)
        } else if same_text(m, "writable-auxiliaries") {
            Some(CharacteristicFlags::WritableAuxiliaries)
        } else if same_text(m, "encrypt-read") {
            Some(CharacteristicFlags::EncryptRead)
        } else if same_text(m, "encrypt-write") {
            Some(CharacteristicFlags::EncryptWrite)
        } else if same_text(m, "encrypt-notify") {
            Some(CharacteristicFlags::EncryptNotify)
        } else if same_text(m, "encrypt-indicate") {
            Some(CharacteristicFlags::EncryptIndicate)
        } else if same_text(m, "encrypt-authenticated-read") {
            Some(CharacteristicFlags::EncryptAuthenticatedRead)
        } else if same_text(m, "encrypt-authenticated-write") {
            Some(CharacteristicFlags::EncryptAuthenticatedWrite)
        } else if same_text(m, "encrypt-authenticated-notify") {
            Some(CharacteristicFlags::EncryptAuthenticatedNotify)
        } else if same_text(m, "encrypt-authenticated-indicate") {
            Some(CharacteristicFlags::EncryptAuthenticatedIndicate)
        } else if same_text(m, "secure-read") {
            Some(CharacteristicFlags::SecureRead)
        } else if same_text(m, "secure-write") {
            Some(CharacteristicFlags::SecureWrite)
        } else if same_text(m, "secure-notify") {
            Some(CharacteristicFlags::SecureNotify)
        } else if same_text(m, "secure-indicate") {
            Some(CharacteristicFlags::SecureIndicate)
        } else if same_text(m, "authorize") {
            Some(CharacteristicFlags::Authorize)
        } else {
            None
        }
    }

    /// The flag that a token stands for. A text that is the token of no
    /// flag is turned down, and named in the failure.
    pub fn from_str(m: &str) -> (result: Result<CharacteristicFlags, GattError>)
        ensures
            forall|f: CharacteristicFlags|
                f.text() == m@ ==> result == Ok::<CharacteristicFlags, GattError>(f),
            (forall|f: CharacteristicFlags| f.text() != m@) ==> result is Err && result->Err_0@
                == GattErrorView::IOError(invalid_variant_detail(m@)),
    {
        match CharacteristicFlags::lookup(m) {
            Some(found) => {
                proof {
                    assert forall|f: CharacteristicFlags| f.text() == m@ implies f == found by {
                        CharacteristicFlags::lemma_text_injective(f, found);
                    }
                }
                Ok(found)
            },
            None => Err(invalid_variant(m)),
        }
    }
}

/// How the value of a descriptor may be used.
#[derive(Debug, Clone, Copy, PartialEq, Eq, Structural)]
pub enum GattDescriptorFlags {
    Read,
    Write,
    Notify,
    EncryptRead,
    EncryptWrite,
    EncryptAuthenticatedRead,
    EncryptAuthenticatedWrite,
    SecureRead,
    SecureWrite,
    Authorize,
}

impl GattDescriptorFlags {
    /// The token that stands for the flag on the wire.
    pub open spec fn text(self) -> Seq<char> {
        match self {
            GattDescriptorFlags::Read => "read"@,
            GattDescriptorFlags::Write => "write"@,
            GattDescriptorFlags::Notify => "notify"@,
            GattDescriptorFlags::EncryptRead => "encrypt-read"@,
            GattDescriptorFlags::EncryptWrite => "encrypt-write"@,
            GattDescriptorFlags::EncryptAuthenticatedRead => "encrypt-authenticated-read"@,
            GattDescriptorFlags::EncryptAuthenticatedWrite => "encrypt-authenticated-write"@,
            GattDescriptorFlags::SecureRead => "secure-read"@,
            GattDescriptorFlags::SecureWrite => "secure-write"@,
            GattDescriptorFlags::Authorize => "authorize"@,
        }
    }

    /// The length of the flag's token and its first character.
    spec fn shape(self) -> (nat, char) {
        match self {
            GattDescriptorFlags::Read => (4, 'r'),
            GattDescriptorFlags::Write => (5, 'w'),
            GattDescriptorFlags::Notify => (6, 'n'),
            GattDescriptorFlags::EncryptRead => (12, 'e'),
            GattDescriptorFlags::EncryptWrite => (13, 'e'),
            GattDescriptorFlags::EncryptAuthenticatedRead => (26, 'e'),
            GattDescriptorFlags::EncryptAuthenticatedWrite => (27, 'e'),
            GattDescriptorFlags::SecureRead => (11, 's'),
            GattDescriptorFlags::SecureWrite => (12, 's'),
            GattDescriptorFlags::Authorize => (9, 'a'),
        }
    }

    /// The shape of a flag's token is the one listed for it.
    proof fn lemma_shape(self)
        ensures
            self.text().len() == self.shape().0,
            self.text()[0] == self.shape().1,
    {
        reveal_strlit("read");
        reveal_strlit("write");
        reveal_strlit("notify");
        reveal_strlit("encrypt-read");
        reveal_strlit("encrypt-write");
        reveal_strlit("encrypt-authenticated-read");
        reveal_strlit("encrypt-authenticated-write");
        reveal_strlit("secure-read");
        reveal_strlit("secure-write");
        reveal_strlit("authorize");
    }

    /// No two flags share a token.
    pub proof fn lemma_text_injective(a: GattDescriptorFlags, b: GattDescriptorFlags)
        requires
            a.text() == b.text(),
        ensures
            a == b,
    {
        a.lemma_shape();
        b.lemma_shape();
    }

    /// The token of the flag.
    pub fn as_str(&self) -> (token: &'static str)
        ensures
            token@ == self.text(),
    {
        match self {
            GattDescriptorFlags::Read => "read",
            GattDescriptorFlags::Write => "write",
            GattDescriptorFlags::Notify => "notify",
            GattDescriptorFlags::EncryptRead => "encrypt-read",
            GattDescriptorFlags::EncryptWrite => "encrypt-write",
            GattDescriptorFlags::EncryptAuthenticatedRead => "encrypt-authenticated-read",
            GattDescriptorFlags::EncryptAuthenticatedWrite => "encrypt-authenticated-write",
            GattDescriptorFlags::SecureRead => "secure-read",
            GattDescriptorFlags::SecureWrite => "secure-write",
            GattDescriptorFlags::Authorize => "authorize",
        }
    }

    /// The flag whose token is `m`, if any.
    fn lookup(m: &str) -> (found: Option<GattDescriptorFlags>)
        ensures
            match found {
                Some(f) => f.text() == m@,
                None => forall|f: GattDescriptorFlags| f.text() != m@,
            },
    {
        if same_text(m, "read") {
            Some(GattDescriptorFlags::Read)
        } else if same_text(m, "write") {
            Some(GattDescriptorFlags::Write)
        } else if same_text(m, "notify") {
            Some(GattDescriptorFlags::Notify)
        } else if same_text(m, "encrypt-read") {
            Some(GattDescriptorFlags::EncryptRead)
        } else if same_text(m, "encrypt-write") {
            Some(GattDescriptorFlags::EncryptWrite)
        } else if same_text(m, "encrypt-authenticated-read") {
            Some(GattDescriptorFlags::EncryptAuthenticatedRead)
        } else if same_text(m, "encrypt-authenticated-write") {
            Some(GattDescriptorFlags::EncryptAuthenticatedWrite)
        } else if same_text(m, "secure-read") {
            Some(GattDescriptorFlags::SecureRead)
        } else if same_text(m, "secure-write") {
            Some(GattDescriptorFlags::SecureWrite)
        } else if same_text(m, "authorize") {
            Some(GattDescriptorFlags::Authorize)
        } else {
            None
        }
    }

    /// The flag that a token stands for. A text that is the token of no
    /// flag is turned down, and named in the failure.
    pub fn from_str(m: &str) -> (result: Result<GattDescriptorFlags, GattError>)
        ensures
            forall|f: GattDescriptorFlags|
                f.text() == m@ ==> result == Ok::<GattDescriptorFlags, GattError>(f),
            (forall|f: GattDescriptorFlags| f.text() != m@) ==> result is Err && result->Err_0@
                == GattErrorView::IOError(invalid_variant_detail(m@)),
    {
        match GattDescriptorFlags::lookup(m) {
            Some(found) => {
                proof {
                    assert forall|f: GattDescriptorFlags| f.text() == m@ implies f == found by {
                        GattDescriptorFlags::lemma_text_injective(f, found);
                    }
                }
                Ok(found)
            },
            None => Err(invalid_variant(m)),
        }
    }
}

/// What an advertisement may be asked to carry besides its own data.
#[derive(Debug, PartialEq, Eq, PartialOrd, Ord, Clone, Copy, Structural)]
pub enum SupportedIncludes {
    TxPower,
    Appearance,
    LocalName,
    RSI,
}

impl Default for SupportedIncludes {
    fn default() -> (feature: SupportedIncludes)
        ensures
            feature == SupportedIncludes::LocalName,
    {
        SupportedIncludes::LocalName
    }
}

impl SupportedIncludes {
    /// The token that stands for the feature on the wire.
    pub open spec fn text(self) -> Seq<char> {
        match self {
            SupportedIncludes::TxPower => "tx-power"@,
            SupportedIncludes::Appearance => "appearance"@,
            SupportedIncludes::LocalName => "local-name"@,
            SupportedIncludes::RSI => "rsi"@,
        }
    }

    /// No two features share a token.
    pub proof fn lemma_text_injective(a: SupportedIncludes, b: SupportedIncludes)
        requires
            a.text() == b.text(),
        ensures
            a == b,
    {
        reveal_strlit("tx-power");
        reveal_strlit("appearance");
        reveal_strlit("local-name");
        reveal_strlit("rsi");
        assert("tx-power"@[0] == 't');
        assert("appearance"@[0] == 'a');
        assert("local-name"@[0] == 'l');
        assert("rsi"@[0] == 'r');
    }

    /// The token of the feature.
    pub fn as_str(&self) -> (token: &'static str)
        ensures
            token@ == self.text(),
    {
        match self {
            SupportedIncludes::TxPower => "tx-power",
            SupportedIncludes::Appearance => "appearance",
            SupportedIncludes::LocalName => "local-name",
            SupportedIncludes::RSI => "rsi",
        }
    }

    /// The token of the feature, as a text of its own.
    pub fn to_text(&self) -> (token: String)
        ensures
            token@ == self.text(),
    {
        self.as_str().to_string()
    }
}

/// The tokens of a list of characteristic flags, in the order of the list.
pub open spec fn characteristic_flag_texts(flags: Seq<CharacteristicFlags>) -> Seq<Seq<char>> {
    Seq::new(flags.len(), |i: int| flags[i].text())
}

/// The tokens of a list of descriptor flags, in the order of the list.
pub open spec fn descriptor_flag_texts(flags: Seq<GattDescriptorFlags>) -> Seq<Seq<char>> {
    Seq::new(flags.len(), |i: int| flags[i].text())
}

/// Writes out the tokens of a list of characteristic flags.
pub fn characteristic_flag_tokens(flags: &Vec<CharacteristicFlags>) -> (tokens: Vec<String>)
    ensures
        texts_of(tokens@) == characteristic_flag_texts(flags@),
{
    let mut tokens: Vec<String> = Vec::new();
    let mut i: usize = 0;
    while i < flags.len()
        invariant
            i <= flags@.len(),
            tokens@.len() == i,
            forall|k: int| 0 <= k < i ==> tokens@[k]@ == flags@[k].text(),
        decreases flags@.len() - i,
    {
        tokens.push(flags[i].as_str().to_string());
        i = i + 1;
    }
    assert(texts_of(tokens@) =~= characteristic_flag_texts(flags@));
    tokens
}

/// Writes out the tokens of a list of descriptor flags.
pub fn descriptor_flag_tokens(flags: &Vec<GattDescriptorFlags>) -> (tokens: Vec<String>)
    ensures
        texts_of(tokens@) == descriptor_flag_texts(flags@),
{
    let mut tokens: Vec<String> = Vec::new();
    let mut i: usize = 0;
    while i < flags.len()
        invariant
            i <= flags@.len(),
            tokens@.len() == i,
            forall|k: int| 0 <= k < i ==> tokens@[k]@ == flags@[k].text(),
        decreases flags@.len() - i,
    {
        tokens.push(flags[i].as_str().to_string());
        i = i + 1;
    }
    assert(texts_of(tokens@) =~= descriptor_flag_texts(flags@));
    tokens
}

} // verus!
