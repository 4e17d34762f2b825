//! The query parameters of a request.
use vstd::hash_map::StringHashMap;
use vstd::prelude::*;

verus! {

/// Query parameters by name.
pub struct Params {
    values: StringHashMap<String>,
}

impl View for Params {
    type V = Map<Seq<char>, Seq<char>>;

    closed spec fn view(&self) -> Map<Seq<char>, Seq<char>> {
        self.values@.map_values(|value: String| value@)
    }
}

/// The parameter of this name, or the fallback where there is none.
pub open spec fn param_or(
    params: Map<Seq<char>, Seq<char>>,
    name: Seq<char>,
    fallback: Seq<char>,
) -> Seq<char> {
    if params.contains_key(name) {
        params[name]
    } else {
        fallback
    }
}

impl Params {
    /// No parameters.
    pub fn new() -> (params: Params)
        ensures
            params@ == Map::<Seq<char>, Seq<char>>::empty(),
    {
        let params = Params { values: StringHashMap::new() };
        assert(params@ =~= Map::<Seq<char>, Seq<char>>::empty());
        params
    }

    /// Sets a parameter; a value that it had before is replaced.
    pub fn insert(&mut self, name: String, value: String)
        ensures
            final(self)@ == old(self)@.insert(name@, value@),
    {
        self.values.insert(name, value);
        assert(self@ =~= old(self)@.insert(name@, value@));
    }

    /// The parameter of this name, if there is one.
    pub fn get(&self, name: &str) -> (value: Option<&str>)
        ensures
            match value {
                Some(v) => self@.contains_key(name@) && v@ == self@[name@],
                None => !self@.contains_key(name@),
            },
    {
        match self.values.get(name) {
            Some(value) => Some(value.as_str()),
            None => None,
        }
    }

    /// The parameter of this name, or the fallback where there is none.
    pub fn get_or<'a>(&'a self, name: &str, fallback: &'a str) -> (value: &'a str)
        ensures
            value@ == param_or(self@, name@, fallback@),
    {
        match self.get(name) {
            Some(value) => value,
            None => fallback,
        }
    }
}

/// A parameter that was set is read back, whatever was set before or is set for another name; one
/// that was not set is read as the fallback.
pub proof fn law_parameters_read_back(
    params: Map<Seq<char>, Seq<char>>,
    name: Seq<char>,
    value: Seq<char>,
    other: Seq<char>,
    fallback: Seq<char>,
)
    ensures
        param_or(params.insert(name, value), name, fallback) == value,
        other != name ==> param_or(params.insert(other, value), name, fallback) == param_or(
            params,
            name,
            fallback,
        ),
        param_or(params.remove(name), name, fallback) == fallback,
{
}

} // verus!
