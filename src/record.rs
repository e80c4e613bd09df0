use vstd::prelude::*;

verus! {

/// One pull request as the endpoint reports it.
pub struct PullRequest {
    pub org: String,
    pub repo: String,
    pub reference: String,
    pub sig: String,
    pub link: String,
    pub state: String,
    pub author: String,
    pub assignees: String,
    pub created_at: String,
    pub updated_at: String,
    pub title: String,
    pub labels: String,
    pub draft: bool,
    pub mergeable: bool,
}

/// Lexical order on character sequences, by code point: the order of `<` on `str`.
pub open spec fn lex_lt(a: Seq<char>, b: Seq<char>) -> bool
    decreases a.len(),
{
    if b.len() == 0 {
        false
    } else if a.len() == 0 {
        true
    } else if a[0] != b[0] {
        (a[0] as u32) < (b[0] as u32)
    } else {
        lex_lt(a.drop_first(), b.drop_first())
    }
}

/// A record was created before the cutoff when its creation timestamp sorts below it.
pub open spec fn before_cutoff(r: PullRequest, cutoff: Seq<char>) -> bool {
    lex_lt(r.created_at@, cutoff)
}

/// Decides `a < b` in the lexical order of their characters.
pub fn lex_less(a: &str, b: &str) -> (r: bool)
    ensures
        r == lex_lt(a@, b@),
{
    let na = a.unicode_len();
    let nb = b.unicode_len();
    let mut i: usize = 0;
    assert(a@.subrange(0, na as int) == a@);
    assert(b@.subrange(0, nb as int) == b@);
    while i < na && i < nb
        invariant
            na == a@.len(),
            nb == b@.len(),
            i <= na,
            i <= nb,
            a@.subrange(0, i as int) == b@.subrange(0, i as int),
            lex_lt(a@, b@) == lex_lt(a@.subrange(i as int, na as int), b@.subrange(i as int, nb as int)),
        decreases na - i,
    {
        let ca = a.get_char(i);
        let cb = b.get_char(i);
        if ca != cb {
            return (ca as u32) < (cb as u32);
        }
        assert(a@.subrange(i as int, na as int).drop_first() == a@.subrange(i + 1, na as int));
        assert(b@.subrange(i as int, nb as int).drop_first() == b@.subrange(i + 1, nb as int));
        assert(a@.subrange(0, i + 1) == a@.subrange(0, i as int).push(ca));
        assert(b@.subrange(0, i + 1) == b@.subrange(0, i as int).push(cb));
        i = i + 1;
    }
    i < nb
}

impl PullRequest {
    /// A field-for-field copy.
    pub fn duplicate(&self) -> (r: PullRequest)
        ensures
            r == *self,
    {
        PullRequest {
            org: self.org.clone(),
            repo: self.repo.clone(),
            reference: self.reference.clone(),
            sig: self.sig.clone(),
            link: self.link.clone(),
            state: self.state.clone(),
            author: self.author.clone(),
            assignees: self.assignees.clone(),
            created_at: self.created_at.clone(),
            updated_at: self.updated_at.clone(),
            title: self.title.clone(),
            labels: self.labels.clone(),
            draft: self.draft,
            mergeable: self.mergeable,
        }
    }

    /// The console line of a record: author, sig, repo, link and creation timestamp.
    pub fn console_line(&self) -> (r: String)
        ensures
            r@ == console_text(*self),
    {
        proof {
            reveal_strlit(", ");
        }
        let line = self.author.clone();
        let line = line.concat(", ");
        let line = line.concat(self.sig.as_str());
        let line = line.concat(", ");
        let line = line.concat(self.repo.as_str());
        let line = line.concat(", ");
        let line = line.concat(self.link.as_str());
        let line = line.concat(", ");
        line.concat(self.created_at.as_str())
    }
}

/// The fields a console line shows, joined by `", "`.
pub open spec fn console_text(r: PullRequest) -> Seq<char> {
    r.author@ + ", "@ + r.sig@ + ", "@ + r.repo@ + ", "@ + r.link@ + ", "@ + r.created_at@
}

} // verus!
