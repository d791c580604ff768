//! Namespaced identifiers: a namespace and a value joined by a single colon.

use vstd::prelude::*;
use vstd::string::{StrSliceExecFns, StringExecFns};

use crate::codec::{Cursor, Error, ProtocolVersion, Readable, Writeable};
use crate::strings::{spec_string_bytes, spec_string_read, spec_string_read_err};

verus! {

/// `i` is the position of the one and only colon in `s`.
pub open spec fn is_only_colon_at(s: Seq<char>, i: int) -> bool {
    0 <= i < s.len() && s[i] == ':' && (forall|j: int| 0 <= j < s.len() && j != i ==> s[j] != ':')
}

/// `s` holds exactly one colon.
pub open spec fn exactly_one_colon(s: Seq<char>) -> bool {
    exists|i: int| is_only_colon_at(s, i)
}

/// A namespaced name of the form `namespace:value`.
pub struct Identifier(String);

impl DeepView for Identifier {
    type V = Seq<char>;

    closed spec fn deep_view(&self) -> Seq<char> {
        self.0@
    }
}

impl Identifier {
    /// Joins a namespace and a value with a colon.
    pub fn new(namespace: String, value: String) -> (r: Self)
        ensures
            r.deep_view() == namespace@ + ":"@ + value@,
    {
        let mut s = namespace;
        s.append(":");
        s.append(value.as_str());
        Identifier(s)
    }

    /// The identifier's text.
    pub fn as_string(&self) -> (r: &String)
        ensures
            r@ == self.deep_view(),
    {
        &self.0
    }

    /// Accepts exactly the strings with one single colon, which then come
    /// back verbatim; anything else is rejected.
    pub fn try_from(value: String) -> (r: Result<Identifier, Error>)
        ensures
            exactly_one_colon(value@) ==> (r matches Ok(id) && id.deep_view() == value@),
            !exactly_one_colon(value@) ==> r == Err::<Identifier, Error>(Error::InvalidIdentifier),
    {
        let n = value.as_str().unicode_len();
        let mut colon: Option<usize> = None;
        let mut i: usize = 0;
        while i < n
            invariant
                i <= n,
                n == value@.len(),
                colon is None ==> (forall|j: int| 0 <= j < i ==> value@[j] != ':'),
                colon matches Some(c) ==> c < i && value@[c as int] == ':' && (forall|j: int|
                    0 <= j < i && j != c ==> value@[j] != ':'),
            decreases n - i,
        {
            let ch = value.as_str().get_char(i);
            if ch == ':' {
                match colon {
                    None => {
                        colon = Some(i);
                    },
                    Some(c) => {
                        proof {
                            assert forall|k: int| !is_only_colon_at(value@, k) by {
                                if k != c {
                                    assert(value@[c as int] == ':');
                                } else {
                                    assert(value@[i as int] == ':');
                                }
                            }
                        }
                        return Err(Error::InvalidIdentifier);
                    },
                }
            }
            i = i + 1;
        }
        match colon {
            Some(c) => {
                let namespace = value.as_str().substring_char(0, c).to_owned();
                let tail = value.as_str().substring_char(c + 1, n).to_owned();
                let id = Identifier::new(namespace, tail);
                proof {
                    reveal_strlit(":");
                    assert(is_only_colon_at(value@, c as int));
                    assert(id.deep_view() =~= value@);
                }
                Ok(id)
            },
            None => {
                proof {
                    assert forall|k: int| !is_only_colon_at(value@, k) by {
                        if 0 <= k < value@.len() {
                            assert(value@[k] != ':');
                        }
                    }
                }
                Err(Error::InvalidIdentifier)
            },
        }
    }
}

impl Readable for Identifier {
    /// A string field whose text holds exactly one colon.
    open spec fn spec_read(data: Seq<u8>) -> Option<(Seq<char>, int)> {
        match spec_string_read(data) {
            Some((s, n)) => if exactly_one_colon(s) {
                Some((s, n))
            } else {
                None
            },
            None => None,
        }
    }

    open spec fn spec_read_err(data: Seq<u8>) -> Error {
        match spec_string_read(data) {
            Some((s, n)) => Error::InvalidIdentifier,
            None => spec_string_read_err(data),
        }
    }

    proof fn lemma_spec_read_bounds(data: Seq<u8>) {
        <String as Readable>::lemma_spec_read_bounds(data);
    }

    fn read(buffer: &mut Cursor<'_>, version: ProtocolVersion) -> (r: Result<Self, Error>) {
        let s = match String::read(buffer, version) {
            Ok(s) => s,
            Err(e) => {
                return Err(e);
            },
        };
        Identifier::try_from(s)
    }
}

impl Writeable for Identifier {
    /// Encoded exactly as the string it is.
    open spec fn spec_write(&self) -> Result<Seq<u8>, Error> {
        spec_string_bytes(self.deep_view())
    }

    fn write(&self, buffer: &mut Vec<u8>, version: ProtocolVersion) -> (r: Result<(), Error>) {
        self.0.write(buffer, version)
    }
}

} // verus!
