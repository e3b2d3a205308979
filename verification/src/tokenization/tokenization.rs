//! Assets by id, tokens by id, and the transfer of a token to a new owner.
//!
//! Values and amounts are whole numbers of hundredths.

use crate::ordered_map::IdMap;
use crate::ids::{is_random_uuid, new_uuid};
use vstd::prelude::*;

verus! {

/// An asset and its value.
pub struct Asset {
    pub id: u128,
    pub name: String,
    pub value: i64,
}

/// A token: a share in an asset, held by an owner.
pub struct Token {
    pub id: u128,
    pub asset_id: u128,
    pub owner: String,
    pub amount: i64,
}

/// What an asset is, mathematically.
pub ghost struct AssetView {
    pub id: u128,
    pub name: Seq<char>,
    pub value: i64,
}

/// What a token is, mathematically.
pub ghost struct TokenView {
    pub id: u128,
    pub asset_id: u128,
    pub owner: Seq<char>,
    pub amount: i64,
}

impl View for Asset {
    type V = AssetView;

    open spec fn view(&self) -> AssetView {
        AssetView { id: self.id, name: self.name@, value: self.value }
    }
}

impl View for Token {
    type V = TokenView;

    open spec fn view(&self) -> TokenView {
        TokenView { id: self.id, asset_id: self.asset_id, owner: self.owner@, amount: self.amount }
    }
}

/// The assets and the tokens on file.
pub struct TokenizationManager {
    assets: IdMap<Asset>,
    tokens: IdMap<Token>,
}

impl TokenizationManager {
    /// The assets by their ids.
    pub closed spec fn assets(&self) -> Map<u128, AssetView> {
        Map::new(|id: u128| self.assets@.contains_key(id), |id: u128| self.assets@[id]@)
    }

    /// The tokens by their ids.
    pub closed spec fn tokens(&self) -> Map<u128, TokenView> {
        Map::new(|id: u128| self.tokens@.contains_key(id), |id: u128| self.tokens@[id]@)
    }

    /// The ids of the assets, in the order in which they were first created.
    pub closed spec fn asset_ids(&self) -> Seq<u128> {
        self.assets.keys()
    }

    /// The ids of the tokens, in the order in which they were first created.
    pub closed spec fn token_ids(&self) -> Seq<u128> {
        self.tokens.keys()
    }

    /// The invariant: each id is listed once.
    pub closed spec fn wf(&self) -> bool {
        &&& self.assets.wf()
        &&& self.tokens.wf()
    }

    /// A manager with no assets and no tokens.
    pub fn new() -> (m: Self)
        ensures
            m.wf(),
            m.assets() == Map::<u128, AssetView>::empty(),
            m.tokens() == Map::<u128, TokenView>::empty(),
            m.asset_ids() == Seq::<u128>::empty(),
            m.token_ids() == Seq::<u128>::empty(),
    {
        let m = TokenizationManager { assets: IdMap::new(), tokens: IdMap::new() };
        assert(m.assets() =~= Map::<u128, AssetView>::empty());
        assert(m.tokens() =~= Map::<u128, TokenView>::empty());
        m
    }

    /// Files an asset under `id`, in place of any asset that had the id
    /// before.
    pub fn create_asset_with_id(&mut self, id: u128, name: String, value: i64)
        requires
            old(self).wf(),
        ensures
            final(self).wf(),
            final(self).tokens() == old(self).tokens(),
            final(self).token_ids() == old(self).token_ids(),
            final(self).assets() == old(self).assets().insert(
                id,
                AssetView { id, name: name@, value },
            ),
            old(self).assets().contains_key(id) ==> final(self).asset_ids() == old(
                self,
            ).asset_ids(),
            !old(self).assets().contains_key(id) ==> final(self).asset_ids() == old(
                self,
            ).asset_ids().push(id),
    {
        self.assets.insert(id, Asset { id, name, value });
        proof {
            assert(self.assets() =~= old(self).assets().insert(
                id,
                AssetView { id, name: name@, value },
            ));
        }
    }

    /// Files an asset under a fresh random id and returns the id.
    pub fn create_asset(&mut self, name: String, value: i64) -> (id: u128)
        requires
            old(self).wf(),
        ensures
            final(self).wf(),
            is_random_uuid(id),
            final(self).tokens() == old(self).tokens(),
            final(self).assets() == old(self).assets().insert(
                id,
                AssetView { id, name: name@, value },
            ),
    {
        let id = new_uuid();
        self.create_asset_with_id(id, name, value);
        id
    }

    /// Whether a token may be issued, and why not.
    pub open spec fn token_refusal(&self, asset_id: u128, amount: i64) -> Option<Seq<char>> {
        if !self.assets().contains_key(asset_id) {
            Some("Asset does not exist."@)
        } else if amount <= 0 {
            Some("Token amount must be greater than zero."@)
        } else {
            None
        }
    }

    /// Issues a token on an asset under `id`, in place of any token that had
    /// the id before. Refused for an unknown asset and for an amount that is
    /// not above zero.
    pub fn create_token_with_id(&mut self, id: u128, asset_id: u128, owner: String, amount: i64) -> (r:
        Result<u128, String>)
        requires
            old(self).wf(),
        ensures
            final(self).wf(),
            final(self).assets() == old(self).assets(),
            final(self).asset_ids() == old(self).asset_ids(),
            match old(self).token_refusal(asset_id, amount) {
                Some(reason) => {
                    &&& r matches Err(e)
                    &&& e@ == reason
                    &&& final(self).tokens() == old(self).tokens()
                    &&& final(self).token_ids() == old(self).token_ids()
                },
                None => {
                    &&& r == Ok::<u128, String>(id)
                    &&& final(self).tokens() == old(self).tokens().insert(
                        id,
                        TokenView { id, asset_id, owner: owner@, amount },
                    )
                },
            },
    {
        if !self.assets.contains_key(&asset_id) {
            return Err("Asset does not exist.".to_string());
        }
        if amount <= 0 {
            return Err("Token amount must be greater than zero.".to_string());
        }
        self.tokens.insert(id, Token { id, asset_id, owner, amount });
        proof {
            assert(self.tokens() =~= old(self).tokens().insert(
                id,
                TokenView { id, asset_id, owner: owner@, amount },
            ));
        }
        Ok(id)
    }

    /// Issues a token on an asset under a fresh random id and returns the
    /// id. Refused for an unknown asset and for an amount that is not above
    /// zero.
    pub fn create_token(&mut self, asset_id: u128, owner: String, amount: i64) -> (r: Result<
        u128,
        String,
    >)
        requires
            old(self).wf(),
        ensures
            final(self).wf(),
            final(self).assets() == old(self).assets(),
            match old(self).token_refusal(asset_id, amount) {
                Some(reason) => {
                    &&& r matches Err(e)
                    &&& e@ == reason
                    &&& final(self).tokens() == old(self).tokens()
                },
                None => {
                    &&& r matches Ok(id)
                    &&& is_random_uuid(id)
                    &&& final(self).tokens() == old(self).tokens().insert(
                        id,
                        TokenView { id, asset_id, owner: owner@, amount },
                    )
                },
            },
    {
        let id = new_uuid();
        self.create_token_with_id(id, asset_id, owner, amount)
    }

    /// The asset filed under this id, if there is one.
    pub fn get_asset(&self, asset_id: u128) -> (r: Option<&Asset>)
        requires
            self.wf(),
        ensures
            match r {
                Some(a) => self.assets().contains_key(asset_id) && a@ == self.assets()[asset_id],
                None => !self.assets().contains_key(asset_id),
            },
    {
        self.assets.get(&asset_id)
    }

    /// The token filed under this id, if there is one.
    pub fn get_token(&self, token_id: u128) -> (r: Option<&Token>)
        requires
            self.wf(),
        ensures
            match r {
                Some(t) => self.tokens().contains_key(token_id) && t@ == self.tokens()[token_id],
                None => !self.tokens().contains_key(token_id),
            },
    {
        self.tokens.get(&token_id)
    }

    /// Hands a token to a new owner. Refused for an unknown token and for an
    /// owner who holds the token already.
    pub fn transfer_token(&mut self, token_id: u128, new_owner: String) -> (r: Result<(), String>)
        requires
            old(self).wf(),
        ensures
            final(self).wf(),
            final(self).assets() == old(self).assets(),
            final(self).asset_ids() == old(self).asset_ids(),
            final(self).token_ids() == old(self).token_ids(),
            !old(self).tokens().contains_key(token_id) ==> {
                &&& r matches Err(e)
                &&& e@ == "Token does not exist."@
                &&& final(self).tokens() == old(self).tokens()
            },
            old(self).tokens().contains_key(token_id) && old(self).tokens()[token_id].owner
                == new_owner@ ==> {
                &&& r matches Err(e)
                &&& e@ == "New owner must be different from the current owner."@
                &&& final(self).tokens() == old(self).tokens()
            },
            old(self).tokens().contains_key(token_id) && old(self).tokens()[token_id].owner
                != new_owner@ ==> {
                &&& r is Ok
                &&& final(self).tokens() == old(self).tokens().insert(
                    token_id,
                    TokenView { owner: new_owner@, ..old(self).tokens()[token_id] },
                )
            },
    {
        match self.tokens.position(&token_id) {
            Some(i) => {
                proof {
                    self.tokens.lemma_view_at(i as int);
                }
                if self.tokens.value_at(i).owner == new_owner {
                    return Err("New owner must be different from the current owner.".to_string());
                }
                let token = self.tokens.value_at_mut(i);
                token.owner = new_owner;
                proof {
                    assert(self.tokens() =~= old(self).tokens().insert(
                        token_id,
                        TokenView { owner: new_owner@, ..old(self).tokens()[token_id] },
                    ));
                }
                Ok(())
            },
            None => Err("Token does not exist.".to_string()),
        }
    }

    /// All assets, in the order in which they were first created.
    pub fn list_assets(&self) -> (list: Vec<&Asset>)
        requires
            self.wf(),
        ensures
            list@.len() == self.asset_ids().len(),
            forall|i: int|
                0 <= i < list@.len() ==> self.assets().contains_key(self.asset_ids()[i]) && (
                #[trigger] list@[i])@ == self.assets()[self.asset_ids()[i]],
    {
        let n = self.assets.len();
        let mut list: Vec<&Asset> = Vec::new();
        let mut i: usize = 0;
        while i < n
            invariant
                self.assets.wf(),
                n == self.assets.keys().len(),
                i <= n,
                list@.len() == i,
                forall|k: int|
                    0 <= k < i ==> self.assets@.contains_key(self.assets.keys()[k]) && (
                    #[trigger] list@[k])@ == self.assets@[self.assets.keys()[k]]@,
            decreases n - i,
        {
            proof {
                self.assets.lemma_view_at(i as int);
            }
            list.push(self.assets.value_at(i));
            i += 1;
        }
        list
    }

    /// All tokens, in the order in which they were first created.
    pub fn list_tokens(&self) -> (list: Vec<&Token>)
        requires
            self.wf(),
        ensures
            list@.len() == self.token_ids().len(),
            forall|i: int|
                0 <= i < list@.len() ==> self.tokens().contains_key(self.token_ids()[i]) && (
                #[trigger] list@[i])@ == self.tokens()[self.token_ids()[i]],
    {
        let n = self.tokens.len();
        let mut list: Vec<&Token> = Vec::new();
        let mut i: usize = 0;
        while i < n
            invariant
                self.tokens.wf(),
                n == self.tokens.keys().len(),
                i <= n,
                list@.len() == i,
                forall|k: int|
                    0 <= k < i ==> self.tokens@.contains_key(self.tokens.keys()[k]) && (
                    #[trigger] list@[k])@ == self.tokens@[self.tokens.keys()[k]]@,
            decreases n - i,
        {
            proof {
                self.tokens.lemma_view_at(i as int);
            }
            list.push(self.tokens.value_at(i));
            i += 1;
        }
        list
    }
}

} // verus!
