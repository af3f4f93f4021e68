use vstd::prelude::*;
use crate::text::push_char;

verus! {

/// Which side of the game a dependency is needed on.
#[derive(Debug, Clone, Copy, PartialEq, Eq, Structural)]
pub enum Side {
    Client,
    Server,
    Both,
}

/// The side assumed where a dependency names none.
pub fn side_both() -> (r: Side)
    ensures
        r == Side::Both,
{
    Side::Both
}

/// A `[[mods]]` entry of a mod's metadata whose credits are one text.
#[derive(Debug)]
pub struct ModsDefault {
    pub mod_id: String,
    pub version: String,
    pub display_name: Option<String>,
    pub logo_file: Option<String>,
    pub description: Option<String>,
    pub display_url: Option<String>,
    pub credits: Option<String>,
    pub authors: Option<String>,
}

/// A `[[mods]]` entry whose credits are a list of names.
#[derive(Debug)]
pub struct ModsWithCreditsList {
    pub mod_id: String,
    pub version: String,
    pub display_name: Option<String>,
    pub logo_file: Option<String>,
    pub description: Option<String>,
    pub display_url: Option<String>,
    pub credits: Option<Vec<String>>,
    pub authors: Option<String>,
}

/// One `[[mods]]` entry, in either of its layouts.
#[derive(Debug)]
pub enum Mods {
    Default(ModsDefault),
    WithCreditList(ModsWithCreditsList),
}

/// The names joined with ", " between them.
pub open spec fn joined(names: Seq<Seq<char>>) -> Seq<char>
    decreases names.len(),
{
    if names.len() == 0 {
        Seq::empty()
    } else if names.len() == 1 {
        names[0]
    } else {
        joined(names.drop_last()) + ", "@ + names.last()
    }
}

pub open spec fn opt_view(o: Option<String>) -> Option<Seq<char>> {
    match o {
        Some(s) => Some(s@),
        None => None,
    }
}

fn copy_opt(o: &Option<String>) -> (r: Option<String>)
    ensures
        opt_view(r) == opt_view(*o),
{
    match o {
        Some(s) => Some(s.clone()),
        None => None,
    }
}

fn append_text(out: &mut String, s: &str)
    ensures
        final(out)@ == old(out)@ + s@,
{
    let n = vstd::string::StrSliceExecFns::unicode_len(s);
    let mut i: usize = 0;
    let ghost start = out@;
    while i < n
        invariant
            n == s@.len(),
            i <= n,
            out@ == start + s@.subrange(0, i as int),
        decreases n - i,
    {
        push_char(out, vstd::string::StrSliceExecFns::get_char(s, i));
        i = i + 1;
        proof { assert(out@ =~= start + s@.subrange(0, i as int)); }
    }
    proof { assert(s@.subrange(0, n as int) =~= s@); }
}

impl Mods {
    pub open spec fn credits_spec(&self) -> Option<Seq<char>> {
        match self {
            Mods::Default(x) => opt_view(x.credits),
            Mods::WithCreditList(x) => match x.credits {
                Some(v) => Some(joined(v@.map_values(|s: String| s@))),
                None => None,
            },
        }
    }

    pub fn mod_id(&self) -> (r: String)
        ensures
            r@ == match self { Mods::Default(x) => x.mod_id@, Mods::WithCreditList(x) => x.mod_id@ },
    {
        match self {
            Mods::Default(x) => x.mod_id.clone(),
            Mods::WithCreditList(x) => x.mod_id.clone(),
        }
    }

    pub fn version(&self) -> (r: String)
        ensures
            r@ == match self { Mods::Default(x) => x.version@, Mods::WithCreditList(x) => x.version@ },
    {
        match self {
            Mods::Default(x) => x.version.clone(),
            Mods::WithCreditList(x) => x.version.clone(),
        }
    }

    pub fn display_name(&self) -> (r: Option<String>)
        ensures
            opt_view(r) == match self {
                Mods::Default(x) => opt_view(x.display_name),
                Mods::WithCreditList(x) => opt_view(x.display_name),
            },
    {
        match self {
            Mods::Default(x) => copy_opt(&x.display_name),
            Mods::WithCreditList(x) => copy_opt(&x.display_name),
        }
    }

    pub fn logo_file(&self) -> (r: Option<String>)
        ensures
            opt_view(r) == match self {
                Mods::Default(x) => opt_view(x.logo_file),
                Mods::WithCreditList(x) => opt_view(x.logo_file),
            },
    {
        match self {
            Mods::Default(x) => copy_opt(&x.logo_file),
            Mods::WithCreditList(x) => copy_opt(&x.logo_file),
        }
    }

    pub fn description(&self) -> (r: Option<String>)
        ensures
            opt_view(r) == match self {
                Mods::Default(x) => opt_view(x.description),
                Mods::WithCreditList(x) => opt_view(x.description),
            },
    {
        match self {
            Mods::Default(x) => copy_opt(&x.description),
            Mods::WithCreditList(x) => copy_opt(&x.description),
        }
    }

    pub fn display_url(&self) -> (r: Option<String>)
        ensures
            opt_view(r) == match self {
                Mods::Default(x) => opt_view(x.display_url),
                Mods::WithCreditList(x) => opt_view(x.display_url),
            },
    {
        match self {
            Mods::Default(x) => copy_opt(&x.display_url),
            Mods::WithCreditList(x) => copy_opt(&x.display_url),
        }
    }

    /// The credits as one text; a list of names is joined with ", ".
    pub fn credits(&self) -> (r: Option<String>)
        ensures
            opt_view(r) == self.credits_spec(),
    {
        match self {
            Mods::Default(x) => copy_opt(&x.credits),
            Mods::WithCreditList(x) => match &x.credits {
                None => None,
                Some(list) => {
                    let ghost names = list@.map_values(|s: String| s@);
                    let mut result = String::new();
                    let mut i: usize = 0;
                    while i < list.len()
                        invariant
                            i <= list.len(),
                            names == list@.map_values(|s: String| s@),
                            result@ == joined(names.subrange(0, i as int)),
                        decreases list.len() - i,
                    {
                        if i > 0 {
                            append_text(&mut result, ", ");
                        }
                        append_text(&mut result, list[i].as_str());
                        proof {
                            let next = names.subrange(0, i + 1);
                            assert(next.drop_last() =~= names.subrange(0, i as int));
                            if i == 0 {
                                assert(result@ =~= next[0]);
                            }
                        }
                        i = i + 1;
                    }
                    proof { assert(names.subrange(0, list.len() as int) =~= names); }
                    Some(result)
                },
            },
        }
    }

    pub fn authors(&self) -> (r: Option<&str>)
        ensures
            match r {
                Some(a) => match self {
                    Mods::Default(x) => x.authors matches Some(s) && a@ == s@,
                    Mods::WithCreditList(x) => x.authors matches Some(s) && a@ == s@,
                },
                None => match self {
                    Mods::Default(x) => x.authors is None,
                    Mods::WithCreditList(x) => x.authors is None,
                },
            },
    {
        match self {
            Mods::Default(x) => match &x.authors {
                Some(s) => Some(s.as_str()),
                None => None,
            },
            Mods::WithCreditList(x) => match &x.authors {
                Some(s) => Some(s.as_str()),
                None => None,
            },
        }
    }
}

} // verus!
