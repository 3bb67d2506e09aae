use vstd::prelude::*;

verus! {

/// The catalogue a title belongs to.
#[derive(Debug, Clone, Copy, PartialEq, Eq, Structural)]
pub enum Source {
    Anime,
    Movies,
    TV,
}

/// The name a source is written as, in URLs, on disk and in the database.
pub open spec fn source_name(source: Source) -> Seq<char> {
    match source {
        Source::Anime => "anime"@,
        Source::Movies => "movies"@,
        Source::TV => "tv"@,
    }
}

/// The source written as `name`, if any.
pub open spec fn source_named(name: Seq<char>) -> Option<Source> {
    if name == "anime"@ {
        Some(Source::Anime)
    } else if name == "movies"@ {
        Some(Source::Movies)
    } else if name == "tv"@ {
        Some(Source::TV)
    } else {
        None
    }
}

impl Source {
    /// The source's name: `anime`, `movies` or `tv`.
    pub fn to_string(&self) -> (res: String)
        ensures
            res@ == source_name(*self),
    {
        match self {
            Source::Anime => "anime".to_string(),
            Source::Movies => "movies".to_string(),
            Source::TV => "tv".to_string(),
        }
    }

    /// The source with the given name; `None` for any other text.
    pub fn from_str(s: &str) -> (res: Option<Source>)
        ensures
            res == source_named(s@),
    {
        let name = s.to_string();
        if name == "anime".to_string() {
            Some(Source::Anime)
        } else if name == "movies".to_string() {
            Some(Source::Movies)
        } else if name == "tv".to_string() {
            Some(Source::TV)
        } else {
            None
        }
    }
}

/// Reading back the name of a source gives the same source.
pub proof fn lemma_source_name_roundtrip(source: Source)
    ensures
        source_named(source_name(source)) == Some(source),
{
    reveal_strlit("anime");
    reveal_strlit("movies");
    reveal_strlit("tv");
    assert("anime"@.len() == 5 && "movies"@.len() == 6 && "tv"@.len() == 2);
    assert("anime"@ != "movies"@ && "anime"@ != "tv"@ && "movies"@ != "tv"@);
}

/// A name that is read as a source is exactly that source's name.
pub proof fn lemma_source_named_roundtrip(name: Seq<char>)
    ensures
        source_named(name) matches Some(source) ==> source_name(source) == name,
{
}

/// Distinct sources have distinct names.
pub proof fn lemma_source_names_distinct(a: Source, b: Source)
    ensures
        source_name(a) == source_name(b) ==> a == b,
{
    lemma_source_name_roundtrip(a);
    lemma_source_name_roundtrip(b);
}

} // verus!
