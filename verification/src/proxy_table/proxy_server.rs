//! One proxy of a group.

use vstd::prelude::*;
use crate::crypto::CryptoConfig;

verus! {

/// The text of an address.
pub trait AddressString: Sized {
    type Address;

    /// The address that the text stands for.
    fn into_address(self) -> Self::Address;
}

/// How to reach a proxy, and the keys that it shares with the client.
#[derive(Debug)]
pub struct ProxyConfig<A> {
    pub address: A,
    pub header_crypto: CryptoConfig,
    pub payload_crypto: Option<CryptoConfig>,
}

/// A proxy as it is configured. `K` is what a key is given as.
#[derive(Debug)]
pub struct ProxyConfigBuilder<S, K> {
    pub address: S,
    pub header_key: K,
    pub payload_key: Option<K>,
}

/// A key is not one. It carries the reason.
#[derive(Debug)]
pub enum ProxyConfigBuildError {
    Crypto(String),
}

impl<S: AddressString, K> ProxyConfigBuilder<S, K> {
    /// Reads the keys, the header key first, and then the address. `read_key`
    /// reads a key.
    pub fn build<F: Fn(K) -> Result<CryptoConfig, String>>(self, read_key: &F) -> (r: Result<
        ProxyConfig<S::Address>,
        ProxyConfigBuildError,
    >)
        requires
            forall|key: K| call_requires(*read_key, (key,)),
            call_requires(S::into_address, (self.address,)),
        ensures
            match r {
                Err(ProxyConfigBuildError::Crypto(reason)) => {
                    ||| call_ensures(*read_key, (self.header_key,), Err(reason))
                    ||| {
                        &&& exists|crypto: CryptoConfig| #[trigger]
                            call_ensures(*read_key, (self.header_key,), Ok(crypto))
                        &&& self.payload_key is Some
                        &&& call_ensures(*read_key, (self.payload_key->0,), Err(reason))
                    }
                },
                Ok(proxy) => {
                    &&& call_ensures(S::into_address, (self.address,), proxy.address)
                    &&& call_ensures(*read_key, (self.header_key,), Ok(proxy.header_crypto))
                    &&& match (self.payload_key, proxy.payload_crypto) {
                        (Some(key), Some(crypto)) => call_ensures(*read_key, (key,), Ok(crypto)),
                        (None, None) => true,
                        _ => false,
                    }
                },
            },
    {
        let header_crypto = match read_key(self.header_key) {
            Ok(crypto) => crypto,
            Err(reason) => {
                return Err(ProxyConfigBuildError::Crypto(reason));
            },
        };
        let payload_crypto = match self.payload_key {
            None => None,
            Some(key) => match read_key(key) {
                Ok(crypto) => Some(crypto),
                Err(reason) => {
                    return Err(ProxyConfigBuildError::Crypto(reason));
                },
            },
        };
        let address = self.address.into_address();
        Ok(ProxyConfig { address, header_crypto, payload_crypto })
    }
}

} // verus!
