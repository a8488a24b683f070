//! The wallet store: key material, looked up by address.

use vstd::prelude::*;
use crate::crypto::{pkcs8_public_key, public_key_of_pkcs8};

verus! {

/// The key material of one owner.
#[derive(Debug, Clone)]
pub struct Wallet {
    pub(crate) pkcs8: Vec<u8>,
    pub(crate) public_key: Vec<u8>,
}

/// What a wallet holds.
pub ghost struct WalletView {
    /// The private key document.
    pub pkcs8: Seq<u8>,
    /// The public key.
    pub public_key: Seq<u8>,
}

impl View for Wallet {
    type V = WalletView;

    open(crate) spec fn view(&self) -> WalletView {
        WalletView { pkcs8: self.pkcs8@, public_key: self.public_key@ }
    }
}

impl WalletView {
    /// Whether the public key is the one that the private key document
    /// holds.
    pub open spec fn keys_match(self) -> bool {
        self.public_key == pkcs8_public_key(self.pkcs8)
    }
}

impl Wallet {
    /// The wallet of a private key document, with the public key that the
    /// document holds. `None` where the signature primitive does not take
    /// the document.
    pub fn from_pkcs8(pkcs8: Vec<u8>) -> (wallet: Option<Wallet>)
        ensures
            wallet.is_some() ==> wallet.unwrap()@.pkcs8 == pkcs8@ && wallet.unwrap()@.keys_match(),
    {
        match public_key_of_pkcs8(pkcs8.as_slice()) {
            Some(public_key) => Some(Wallet { pkcs8, public_key }),
            None => None,
        }
    }

    /// A wallet of the given key material.
    pub fn new(pkcs8: Vec<u8>, public_key: Vec<u8>) -> (wallet: Wallet)
        ensures
            wallet@ == (WalletView { pkcs8: pkcs8@, public_key: public_key@ }),
    {
        Wallet { pkcs8, public_key }
    }

    /// The public key.
    pub fn get_public_key(&self) -> (public_key: &[u8])
        ensures
            public_key@ == self@.public_key,
    {
        self.public_key.as_slice()
    }

    /// The private key document.
    pub fn get_pkcs8(&self) -> (pkcs8: &[u8])
        ensures
            pkcs8@ == self@.pkcs8,
    {
        self.pkcs8.as_slice()
    }
}

/// A wallet under the address that names it.
#[derive(Debug, Clone)]
pub struct WalletEntry {
    pub(crate) address: String,
    pub(crate) wallet: Wallet,
}

/// What an entry of the store holds.
pub ghost struct WalletEntryView {
    /// The address.
    pub address: Seq<char>,
    /// The wallet.
    pub wallet: WalletView,
}

impl View for WalletEntry {
    type V = WalletEntryView;

    open(crate) spec fn view(&self) -> WalletEntryView {
        WalletEntryView { address: self.address@, wallet: self.wallet@ }
    }
}

/// The wallet of the first entry of `entries` under `address`.
pub open spec fn wallet_of(entries: Seq<WalletEntryView>, address: Seq<char>) -> Option<WalletView>
    decreases entries.len(),
{
    if entries.len() == 0 {
        None
    } else if entries.first().address == address {
        Some(entries.first().wallet)
    } else {
        wallet_of(entries.drop_first(), address)
    }
}

/// The views of a list of entries.
pub open spec fn entry_views(entries: Seq<WalletEntry>) -> Seq<WalletEntryView> {
    Seq::new(entries.len(), |i: int| entries[i]@)
}

/// The wallets known, in the order in which they were added.
#[derive(Debug, Clone)]
pub struct Wallets {
    pub(crate) entries: Vec<WalletEntry>,
}

impl View for Wallets {
    type V = Seq<WalletEntryView>;

    open(crate) spec fn view(&self) -> Seq<WalletEntryView> {
        entry_views(self.entries@)
    }
}

impl Wallets {
    /// A store without wallets.
    pub fn new() -> (wallets: Wallets)
        ensures
            wallets@ == Seq::<WalletEntryView>::empty(),
    {
        let wallets = Wallets { entries: Vec::new() };
        proof {
            assert(wallets@ =~= Seq::<WalletEntryView>::empty());
        }
        wallets
    }

    /// Adds `wallet` under `address`, after the entries already held.
    pub fn add_wallet(&mut self, address: String, wallet: Wallet)
        ensures
            final(self)@ == old(self)@.push(
                WalletEntryView { address: address@, wallet: wallet@ },
            ),
    {
        self.entries.push(WalletEntry { address, wallet });
        proof {
            assert(self@ =~= old(self)@.push(
                WalletEntryView { address: address@, wallet: wallet@ },
            ));
        }
    }

    /// The wallet under `address`: the first one, if several entries carry
    /// the address.
    pub fn get_wallet(&self, address: &str) -> (found: Option<&Wallet>)
        ensures
            found.is_some() == wallet_of(self@, address@).is_some(),
            found.is_some() ==> found.unwrap()@ == wallet_of(self@, address@).unwrap(),
    {
        let wanted = address.to_owned();
        let mut i: usize = 0;
        proof {
            assert(self@.skip(0) =~= self@);
        }
        while i < self.entries.len()
            invariant
                i <= self.entries.len(),
                wanted@ == address@,
                wallet_of(self@, address@) == wallet_of(self@.skip(i as int), address@),
            decreases self.entries.len() - i,
        {
            proof {
                let rest = self@.skip(i as int);
                assert(rest.first() == self.entries@[i as int]@);
                assert(rest.drop_first() =~= self@.skip(i + 1));
            }
            if self.entries[i].address == wanted {
                return Some(&self.entries[i].wallet);
            }
            i = i + 1;
        }
        proof {
            assert(self@.skip(self.entries@.len() as int).len() == 0);
        }
        None
    }
}

} // verus!
