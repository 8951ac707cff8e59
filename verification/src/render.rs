//! Rendering a task list as a two-column textual table.
use vstd::prelude::*;
use crate::digits::spec_u64_digits;
use crate::digits::u64_to_string;
use crate::store::Task;

verus! {

/// The text that the table collaborator prints for given cell rows:
/// a function of those rows alone.
pub uninterp spec fn table_text_of(rows: Seq<(Seq<char>, Seq<char>)>) -> Seq<char>;

/// Relies on prettytable's `Table` and its `Display`: the rendered
/// text depends only on the format, the `ID | Description` title and
/// the cell strings handed to it, all fixed here but the cells.
#[verifier::external_body]
fn table_to_string(rows: &Vec<(String, String)>) -> (r: String)
    ensures
        r@ == table_text_of(rows@.map_values(|p: (String, String)| (p.0@, p.1@))),
{
    let mut t = prettytable::Table::new();
    t.set_format(*prettytable::format::consts::FORMAT_NO_LINESEP_WITH_TITLE);
    t.set_titles(prettytable::Row::new(vec![
        prettytable::Cell::new("ID"),
        prettytable::Cell::new("Description"),
    ]));
    for p in rows {
        t.add_row(prettytable::Row::new(vec![
            prettytable::Cell::new(&p.0),
            prettytable::Cell::new(&p.1),
        ]));
    }
    t.to_string()
}

/// The cell rows a task list is shown as: each task's id in decimal
/// beside its description.
pub open spec fn spec_cells(tasks: Seq<Task>) -> Seq<(Seq<char>, Seq<char>)> {
    tasks.map_values(|t: Task| (spec_u64_digits(t.id as nat), t.description@))
}

/// Render a task list: the literal "No Tasks" when it is empty, and
/// otherwise the table of id and description columns.
pub fn render_tasks(tasks: &Vec<Task>) -> (r: String)
    ensures
        tasks@.len() == 0 ==> r@ == "No Tasks"@,
        tasks@.len() > 0 ==> r@ == table_text_of(spec_cells(tasks@)),
{
    if tasks.len() == 0 {
        return "No Tasks".to_owned();
    }
    let mut cells: Vec<(String, String)> = Vec::new();
    let n = tasks.len();
    let mut j: usize = 0;
    while j < n
        invariant
            n == tasks@.len(),
            0 <= j <= n,
            cells@.len() == j,
            forall|k: int|
                0 <= k < j ==> (#[trigger] cells@[k]).0@ == spec_u64_digits(tasks@[k].id as nat)
                    && cells@[k].1@ == tasks@[k].description@,
        decreases n - j,
    {
        let id_text = u64_to_string(tasks[j].id);
        let description = tasks[j].description.clone();
        cells.push((id_text, description));
        j = j + 1;
    }
    let out = table_to_string(&cells);
    proof {
        assert(cells@.map_values(|p: (String, String)| (p.0@, p.1@)) =~= spec_cells(tasks@));
    }
    out
}

} // verus!
