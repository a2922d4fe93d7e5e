//! One proxy of a chain.

use vstd::prelude::*;
use vstd::string::*;
use crate::addr::{RouteAddr, RouteAddrView};
use crate::crypto::CryptoConfig;

verus! {

/// How to reach a proxy, and the keys that it shares with the client.
#[derive(Debug, PartialEq, Eq)]
pub struct HopConfig {
    pub address: RouteAddr,
    pub header_crypto: CryptoConfig,
    pub payload_crypto: Option<CryptoConfig>,
}

pub struct HopConfigView {
    pub address: RouteAddrView,
    pub header_crypto: CryptoConfig,
    pub payload_crypto: Option<CryptoConfig>,
}

impl View for HopConfig {
    type V = HopConfigView;

    open spec fn view(&self) -> HopConfigView {
        HopConfigView {
            address: self.address@,
            header_crypto: self.header_crypto,
            payload_crypto: self.payload_crypto,
        }
    }
}

impl Clone for HopConfig {
    fn clone(&self) -> (r: Self)
        ensures
            r@ == self@,
    {
        HopConfig {
            address: self.address.clone(),
            header_crypto: self.header_crypto,
            payload_crypto: self.payload_crypto,
        }
    }
}

/// Which key of a hop is not one. It carries the reason, never the key.
#[derive(Debug, PartialEq, Eq)]
pub enum HopConfigBuildError {
    HeaderCrypto(String),
    PayloadCrypto(String),
}

impl HopConfigBuildError {
    pub fn to_text(&self) -> (text: String)
        ensures
            match *self {
                HopConfigBuildError::HeaderCrypto(reason) => text@ == "HeaderCrypto: "@ + reason@,
                HopConfigBuildError::PayloadCrypto(reason) => text@ == "PayloadCrypto: "@
                    + reason@,
            },
    {
        match self {
            HopConfigBuildError::HeaderCrypto(reason) => {
                "HeaderCrypto: ".to_owned().concat(reason.as_str())
            },
            HopConfigBuildError::PayloadCrypto(reason) => {
                "PayloadCrypto: ".to_owned().concat(reason.as_str())
            },
        }
    }
}

impl HopConfig {
    /// Puts a hop together from its address and what its keys decoded to. The
    /// header key is looked at first.
    pub fn build(
        address: RouteAddr,
        header_key: Result<CryptoConfig, String>,
        payload_key: Option<Result<CryptoConfig, String>>,
    ) -> (r: Result<HopConfig, HopConfigBuildError>)
        ensures
            match (header_key, payload_key) {
                (Err(reason), _) => r == Err::<HopConfig, _>(
                    HopConfigBuildError::HeaderCrypto(reason),
                ),
                (Ok(_), Some(Err(reason))) => r == Err::<HopConfig, _>(
                    HopConfigBuildError::PayloadCrypto(reason),
                ),
                (Ok(header_crypto), None) => r == Ok::<_, HopConfigBuildError>(
                    HopConfig { address, header_crypto, payload_crypto: None },
                ),
                (Ok(header_crypto), Some(Ok(payload_crypto))) => r == Ok::<_, HopConfigBuildError>(
                    HopConfig { address, header_crypto, payload_crypto: Some(payload_crypto) },
                ),
            },
    {
        let header_crypto = match header_key {
            Ok(crypto) => crypto,
            Err(reason) => {
                return Err(HopConfigBuildError::HeaderCrypto(reason));
            },
        };
        let payload_crypto = match payload_key {
            None => None,
            Some(Ok(crypto)) => Some(crypto),
            Some(Err(reason)) => {
                return Err(HopConfigBuildError::PayloadCrypto(reason));
            },
        };
        Ok(HopConfig { address, header_crypto, payload_crypto })
    }
}

/// Two hops are the same only if their addresses and both their keys are.
pub proof fn hops_are_told_apart(a: HopConfig, b: HopConfig)
    ensures
        a@ == b@ <==> a.address@ == b.address@ && a.header_crypto == b.header_crypto
            && a.payload_crypto == b.payload_crypto,
{
}

} // verus!
