//! One proxy of a chain, under an address of any kind.

use vstd::prelude::*;
use crate::crypto::CryptoConfig;

verus! {

/// The text of an address.
pub trait IntoAddr: Sized {
    type Addr;

    /// The address that the text stands for.
    fn into_address(self) -> Self::Addr;
}

/// How to reach a proxy, and the keys that it shares with the client.
#[derive(Debug)]
pub struct ConnConfig<A> {
    pub address: A,
    pub header_crypto: CryptoConfig,
    pub payload_crypto: Option<CryptoConfig>,
}

/// A proxy as it is configured. `K` is what a key is given as.
#[derive(Debug)]
pub struct ConnConfigBuilder<S, K> {
    pub address: S,
    pub header_key: K,
    pub payload_key: Option<K>,
}

/// Which key of a proxy is not one. It carries the reason, never the key.
#[derive(Debug)]
pub enum ConnConfigBuildError {
    HeaderCrypto(String),
    PayloadCrypto(String),
}

/// Whether reading a key may succeed.
pub open spec fn key_readable<K, F: Fn(K) -> Result<CryptoConfig, String>>(
    read_key: F,
    key: K,
) -> bool {
    exists|crypto: CryptoConfig| #[trigger] call_ensures(read_key, (key,), Ok(crypto))
}

impl<S: IntoAddr, K> ConnConfigBuilder<S, K> {
    /// Reads the keys, the header key first, and then the address. `read_key`
    /// reads a key.
    pub fn build<F: Fn(K) -> Result<CryptoConfig, String>>(self, read_key: &F) -> (r: Result<
        ConnConfig<S::Addr>,
        ConnConfigBuildError,
    >)
        requires
            forall|key: K| call_requires(*read_key, (key,)),
            call_requires(S::into_address, (self.address,)),
        ensures
            match r {
                Err(ConnConfigBuildError::HeaderCrypto(reason)) => call_ensures(
                    *read_key,
                    (self.header_key,),
                    Err(reason),
                ),
                Err(ConnConfigBuildError::PayloadCrypto(reason)) => {
                    &&& key_readable(*read_key, self.header_key)
                    &&& self.payload_key matches Some(key)
                    &&& call_ensures(*read_key, (key,), Err(reason))
                },
                Ok(conn) => {
                    &&& call_ensures(S::into_address, (self.address,), conn.address)
                    &&& call_ensures(*read_key, (self.header_key,), Ok(conn.header_crypto))
                    &&& match (self.payload_key, conn.payload_crypto) {
                        (Some(key), Some(crypto)) => call_ensures(*read_key, (key,), Ok(crypto)),
                        (None, None) => true,
                        _ => false,
                    }
                },
            },
    {
        let header_crypto = match read_key(self.header_key) {
            Ok(crypto) => crypto,
            Err(reason) => {
                return Err(ConnConfigBuildError::HeaderCrypto(reason));
            },
        };
        assert(key_readable(*read_key, self.header_key));
        let payload_crypto = match self.payload_key {
            None => None,
            Some(key) => match read_key(key) {
                Ok(crypto) => Some(crypto),
                Err(reason) => {
                    return Err(ConnConfigBuildError::PayloadCrypto(reason));
                },
            },
        };
        let address = self.address.into_address();
        Ok(ConnConfig { address, header_crypto, payload_crypto })
    }
}

/// A key that is never read is not readable.
pub proof fn an_unread_key_is_not_readable<K, F: Fn(K) -> Result<CryptoConfig, String>>(
    read_key: F,
    key: K,
)
    requires
        forall|out: Result<CryptoConfig, String>| #[trigger]
            call_ensures(read_key, (key,), out) ==> out is Err,
    ensures
        !key_readable(read_key, key),
{
}

} // verus!
