//! The provider directory: which quote service to ask, which asset ids it
//! tracks, under which symbols, in which currencies, and on which routes.
//! The directory file itself is read and deserialized by the caller; here
//! the entries are selected and their request strings assembled.

use vstd::prelude::*;
use crate::strmap::{StrMap, has_key, value_of, key_seq, keys_unique};
use crate::strutil::{comma_join, join_with_commas, concat_str};

verus! {

/// Spec-level image of one provider entry.
pub ghost struct ProviderView {
    pub name: Seq<char>,
    pub coins: Seq<(Seq<char>, Seq<char>)>,
    pub base_route: Seq<char>,
    pub routes: Seq<(Seq<char>, Seq<char>)>,
    pub currencies: Seq<Seq<char>>,
}

/// The behaviour of a quote provider: a name, an asset-id-to-symbol
/// directory, a base route with named route suffixes, and the quote
/// currencies.
pub trait Provide {
    /// The provider is fit for use: its coin and route maps are well formed.
    spec fn inv(&self) -> bool;

    spec fn spec_name(&self) -> Seq<char>;

    spec fn spec_coins(&self) -> Seq<(Seq<char>, Seq<char>)>;

    spec fn spec_base_route(&self) -> Seq<char>;

    spec fn spec_routes(&self) -> Seq<(Seq<char>, Seq<char>)>;

    spec fn spec_currencies(&self) -> Seq<Seq<char>>;

    fn get_name(&self) -> (r: &String)
        ensures
            r@ == self.spec_name(),
    ;

    fn get_coins(&self) -> (r: &StrMap<String>)
        ensures
            r@ == self.spec_coins(),
            self.inv() ==> keys_unique(self.spec_coins()),
    ;

    fn get_base_route(&self) -> (r: &String)
        ensures
            r@ == self.spec_base_route(),
    ;

    fn get_routes(&self) -> (r: &StrMap<String>)
        ensures
            r@ == self.spec_routes(),
            self.inv() ==> keys_unique(self.spec_routes()),
    ;

    fn get_currencies(&self) -> (r: &Vec<String>)
        ensures
            r.deep_view() == self.spec_currencies(),
    ;

    /// The tracked asset ids, comma-separated, in directory order.
    fn get_coins_string(&self) -> (r: String)
        ensures
            r@ == comma_join(key_seq(self.spec_coins())),
    {
        let coins = self.get_coins();
        let mut keys: Vec<String> = Vec::new();
        let n = coins.len();
        let mut i: usize = 0;
        while i < n
            invariant
                n == coins@.len(),
                coins@ == self.spec_coins(),
                i <= n,
                keys@.len() == i,
                forall|j: int| 0 <= j < i ==> keys@[j]@ == coins@[j].0,
            decreases n - i,
        {
            let e = coins.entry_at(i);
            keys.push(e.0.clone());
            i += 1;
        }
        proof {
            assert(keys.deep_view() =~= key_seq(coins@));
        }
        join_with_commas(&keys)
    }

    /// The full address of the named route: the base route followed by the
    /// route's suffix; `None` exactly when the route is unknown.
    fn get_uri(&self, route: &str) -> (r: Option<String>)
        requires
            self.inv(),
        ensures
            r is Some <==> has_key(self.spec_routes(), route@),
            r is Some ==> r->0@ == self.spec_base_route() + value_of(self.spec_routes(), route@),
    {
        match self.get_routes().get(route) {
            Some(suffix) => Some(concat_str(self.get_base_route(), suffix.as_str())),
            None => None,
        }
    }

    /// The quote currencies, comma-separated, in directory order.
    fn get_currencies_string(&self) -> (r: String)
        ensures
            r@ == comma_join(self.spec_currencies()),
    {
        join_with_commas(self.get_currencies())
    }
}

/// One provider entry of the directory file.
pub struct Provider {
    pub name: String,
    pub coins: StrMap<String>,
    pub base_route: String,
    pub routes: StrMap<String>,
    pub currencies: Vec<String>,
}

impl View for Provider {
    type V = ProviderView;

    open spec fn view(&self) -> ProviderView {
        ProviderView {
            name: self.name@,
            coins: self.coins@,
            base_route: self.base_route@,
            routes: self.routes@,
            currencies: self.currencies.deep_view(),
        }
    }
}

impl Provider {
    /// A provider entry from its parts, as the directory file carries them.
    pub fn new(
        name: String,
        coins: StrMap<String>,
        base_route: String,
        routes: StrMap<String>,
        currencies: Vec<String>,
    ) -> (r: Provider)
        requires
            coins.wf(),
            routes.wf(),
        ensures
            r@ == (ProviderView {
                name: name@,
                coins: coins@,
                base_route: base_route@,
                routes: routes@,
                currencies: currencies.deep_view(),
            }),
            r.inv(),
    {
        Provider { name, coins, base_route, routes, currencies }
    }
}

impl Provide for Provider {
    open spec fn inv(&self) -> bool {
        self.coins.wf() && self.routes.wf()
    }

    open spec fn spec_name(&self) -> Seq<char> {
        self.name@
    }

    open spec fn spec_coins(&self) -> Seq<(Seq<char>, Seq<char>)> {
        self.coins@
    }

    open spec fn spec_base_route(&self) -> Seq<char> {
        self.base_route@
    }

    open spec fn spec_routes(&self) -> Seq<(Seq<char>, Seq<char>)> {
        self.routes@
    }

    open spec fn spec_currencies(&self) -> Seq<Seq<char>> {
        self.currencies.deep_view()
    }

    fn get_name(&self) -> (r: &String) {
        &self.name
    }

    fn get_coins(&self) -> (r: &StrMap<String>) {
        proof {
            assert(self.inv() ==> keys_unique(self.coins@));
        }
        &self.coins
    }

    fn get_base_route(&self) -> (r: &String) {
        &self.base_route
    }

    fn get_routes(&self) -> (r: &StrMap<String>) {
        proof {
            assert(self.inv() ==> keys_unique(self.routes@));
        }
        &self.routes
    }

    fn get_currencies(&self) -> (r: &Vec<String>) {
        &self.currencies
    }
}

impl Clone for Provider {
    /// A clone carries the same directory entry.
    fn clone(&self) -> (r: Self)
        ensures
            r@ == self@,
    {
        let mut currencies: Vec<String> = Vec::new();
        let n = self.currencies.len();
        let mut i: usize = 0;
        while i < n
            invariant
                n == self.currencies@.len(),
                i <= n,
                currencies@.len() == i,
                forall|j: int| 0 <= j < i ==> currencies@[j]@ == self.currencies@[j]@,
            decreases n - i,
        {
            currencies.push(self.currencies[i].clone());
            i += 1;
        }
        proof {
            assert(currencies.deep_view() =~= self.currencies.deep_view());
        }
        Provider {
            name: self.name.clone(),
            coins: self.coins.clone(),
            base_route: self.base_route.clone(),
            routes: self.routes.clone(),
            currencies,
        }
    }
}

/// Selects the provider under the given name from a freshly read directory;
/// `None` exactly when the directory has no such entry.
pub fn update_provider(providers: &StrMap<Provider>, provider_name: &str) -> (r: Option<Provider>)
    requires
        providers.wf(),
    ensures
        r is Some <==> has_key(providers@, provider_name@),
        r is Some ==> r->0@ == value_of(providers@, provider_name@),
{
    match providers.get(provider_name) {
        Some(p) => Some(p.clone()),
        None => None,
    }
}

} // verus!
