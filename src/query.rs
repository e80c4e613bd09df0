use vstd::prelude::*;

verus! {

/// What went wrong before any request was made.
#[derive(Debug, PartialEq, Eq, Structural, Clone, Copy)]
pub enum QueryError {
    /// Both or neither of a single author and an inventory were given.
    AuthorInventoryConflict,
    /// No author handle to build a query for.
    MissingAuthor,
    /// No state filter to build a query with.
    MissingState,
    /// The cutoff lies outside the range of representable dates.
    DurationOverflow,
}

/// Where the authors of a run come from.
pub enum AuthorSource {
    /// One author handle.
    Single(String),
    /// A path to a file with one author handle per line.
    Inventory(String),
}

/// The options of one run.
pub struct QueryPullParam {
    pub author: Option<String>,
    pub state: Option<String>,
    pub duration: u64,
    pub exc: bool,
    pub inventory: Option<String>,
}

/// The endpoint that pull requests are queried from.
pub const PULLS_ENDPOINT: &'static str = "https://ipb.osinfra.cn/pulls?";

impl QueryPullParam {
    /// Exactly one of a single author and an inventory must be given.
    pub open spec fn sources_ok(&self) -> bool {
        self.author.is_some() != self.inventory.is_some()
    }

    /// Checks that exactly one source of authors is given, and returns it.
    pub fn param_check(&self) -> (r: Result<AuthorSource, QueryError>)
        ensures
            r is Err <==> !self.sources_ok(),
            r is Err ==> r == Err::<AuthorSource, QueryError>(QueryError::AuthorInventoryConflict),
            r matches Ok(AuthorSource::Single(a)) ==> self.author == Some(a),
            r matches Ok(AuthorSource::Inventory(p)) ==> self.inventory == Some(p),
    {
        match (&self.author, &self.inventory) {
            (Some(a), None) => Ok(AuthorSource::Single(a.clone())),
            (None, Some(p)) => Ok(AuthorSource::Inventory(p.clone())),
            _ => Err(QueryError::AuthorInventoryConflict),
        }
    }

    /// The query for one author: `link` followed by `author=<author>&state=<state>`.
    /// The author is `user` where given, else the run's single author.
    pub fn url_splice(link: &str, arg: &QueryPullParam, user: Option<String>) -> (r: Result<
        String,
        QueryError,
    >)
        ensures
            user.is_none() && arg.author.is_none() ==> r == Err::<String, QueryError>(
                QueryError::MissingAuthor,
            ),
            (user.is_some() || arg.author.is_some()) && arg.state.is_none() ==> r == Err::<
                String,
                QueryError,
            >(QueryError::MissingState),
            (user.is_some() || arg.author.is_some()) && arg.state.is_some() ==> (r matches Ok(u)
                && u@ == query_url(link@, chosen_author(user, arg), arg.state.unwrap()@)),
    {
        let author = match user {
            Some(u) => u,
            None => match &arg.author {
                Some(a) => a.clone(),
                None => {
                    return Err(QueryError::MissingAuthor);
                },
            },
        };
        match &arg.state {
            Some(state) => {
                let url = String::from_str(link);
                let url = url.concat("author=");
                let url = url.concat(author.as_str());
                let url = url.concat("&state=");
                let url = url.concat(state.as_str());
                proof {
                    reveal_strlit("author=");
                    reveal_strlit("&state=");
                }
                Ok(url)
            },
            None => Err(QueryError::MissingState),
        }
    }
}

/// The author a query is built for: `user` where given, else the run's single author.
pub open spec fn chosen_author(user: Option<String>, arg: &QueryPullParam) -> Seq<char> {
    if user.is_some() {
        user.unwrap()@
    } else {
        arg.author.unwrap()@
    }
}

/// `link` followed by the author and state parameters.
pub open spec fn query_url(link: Seq<char>, author: Seq<char>, state: Seq<char>) -> Seq<char> {
    link + "author="@ + author + "&state="@ + state
}

/// The decimal digit for `d`.
pub open spec fn digit_char(d: nat) -> char {
    if d == 0 {
        '0'
    } else if d == 1 {
        '1'
    } else if d == 2 {
        '2'
    } else if d == 3 {
        '3'
    } else if d == 4 {
        '4'
    } else if d == 5 {
        '5'
    } else if d == 6 {
        '6'
    } else if d == 7 {
        '7'
    } else if d == 8 {
        '8'
    } else {
        '9'
    }
}

/// The decimal form of `n`, without leading zeros.
pub open spec fn decimal(n: nat) -> Seq<char>
    decreases n,
{
    if n < 10 {
        seq![digit_char(n)]
    } else {
        decimal(n / 10) + seq![digit_char(n % 10)]
    }
}

fn digit_text(d: u64) -> (r: &'static str)
    requires
        d < 10,
    ensures
        r@ == seq![digit_char(d as nat)],
{
    proof {
        reveal_strlit("0");
        reveal_strlit("1");
        reveal_strlit("2");
        reveal_strlit("3");
        reveal_strlit("4");
        reveal_strlit("5");
        reveal_strlit("6");
        reveal_strlit("7");
        reveal_strlit("8");
        reveal_strlit("9");
    }
    let r = if d == 0 {
        "0"
    } else if d == 1 {
        "1"
    } else if d == 2 {
        "2"
    } else if d == 3 {
        "3"
    } else if d == 4 {
        "4"
    } else if d == 5 {
        "5"
    } else if d == 6 {
        "6"
    } else if d == 7 {
        "7"
    } else if d == 8 {
        "8"
    } else {
        "9"
    };
    assert(r@ =~= seq![digit_char(d as nat)]);
    r
}

/// Writes `n` in decimal.
pub fn decimal_text(n: u64) -> (r: String)
    ensures
        r@ == decimal(n as nat),
    decreases n,
{
    if n < 10 {
        String::from_str(digit_text(n))
    } else {
        let s = decimal_text(n / 10);
        s.concat(digit_text(n % 10))
    }
}

/// The address of page `page` of a query: `base` followed by `&page=<page>`.
pub open spec fn page_url(base: Seq<char>, page: nat) -> Seq<char> {
    base + "&page="@ + decimal(page)
}

/// Appends the page parameter to a query.
pub fn page_url_of(base: &str, page: u64) -> (r: String)
    ensures
        r@ == page_url(base@, page as nat),
{
    proof {
        reveal_strlit("&page=");
    }
    let url = String::from_str(base);
    let url = url.concat("&page=");
    let digits = decimal_text(page);
    url.concat(digits.as_str())
}

} // verus!
