use vstd::prelude::*;
use crate::record::PullRequest;

verus! {

/// One data row of the spreadsheet.
pub struct SheetRow {
    pub author: String,
    pub sig: String,
    pub repo: String,
    pub link: String,
    pub created_at: String,
}

/// What a spreadsheet export writes: the file, the header row and one row per record.
pub struct SheetPlan {
    pub file_name: String,
    pub titles: Vec<String>,
    pub rows: Vec<SheetRow>,
}

/// The row a record becomes.
pub open spec fn row_of(r: PullRequest) -> SheetRow {
    SheetRow {
        author: r.author,
        sig: r.sig,
        repo: r.repo,
        link: r.link,
        created_at: r.created_at,
    }
}

/// The header row: author, sig, repo, link, created_at.
pub open spec fn title_texts() -> Seq<Seq<char>> {
    seq!["author"@, "sig"@, "repo"@, "link"@, "created_at"@]
}

/// The header row of the spreadsheet.
pub fn column_titles() -> (r: Vec<String>)
    ensures
        r@.map_values(|t: String| t@) == title_texts(),
{
    let r = vec![
        String::from_str("author"),
        String::from_str("sig"),
        String::from_str("repo"),
        String::from_str("link"),
        String::from_str("created_at"),
    ];
    assert(r@.map_values(|t: String| t@) =~= title_texts());
    r
}

/// The spreadsheet for a run's records: `None` when there are none, else a file named after the
/// first record's author, with the header and one row per record, in order.
pub fn excel_plan(records: &Vec<PullRequest>) -> (r: Option<SheetPlan>)
    ensures
        r is None <==> records@.len() == 0,
        r matches Some(p) ==> {
            &&& p.file_name@ == records@[0].author@ + ".xlsx"@
            &&& p.titles@.map_values(|t: String| t@) == title_texts()
            &&& p.rows@ == records@.map_values(|x: PullRequest| row_of(x))
        },
{
    if records.len() == 0 {
        return None;
    }
    let file_name = records[0].author.clone().concat(".xlsx");
    let mut rows: Vec<SheetRow> = Vec::new();
    let n = records.len();
    let mut i: usize = 0;
    while i < n
        invariant
            n == records@.len(),
            i <= n,
            rows@ == records@.take(i as int).map_values(|x: PullRequest| row_of(x)),
        decreases n - i,
    {
        let x = &records[i];
        rows.push(
            SheetRow {
                author: x.author.clone(),
                sig: x.sig.clone(),
                repo: x.repo.clone(),
                link: x.link.clone(),
                created_at: x.created_at.clone(),
            },
        );
        i = i + 1;
        assert(rows@ =~= records@.take(i as int).map_values(|x: PullRequest| row_of(x)));
    }
    assert(records@.take(n as int) =~= records@);
    Some(SheetPlan { file_name, titles: column_titles(), rows })
}

} // verus!
