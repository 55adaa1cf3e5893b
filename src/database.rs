//! The text of the statements sent to the store, the text of the rows it
//! returns, and the CSV columns that the import leaves out.
use vstd::prelude::*;
use crate::text::{join_strings, join_with, string_views};

verus! {

/// The three tables joined on the player's id.
pub const JOIN_ALL: &'static str =
    "player JOIN statistics ON player.id = statistics.player_id JOIN position ON player.id = position.player_id";

/// The query for all players, or those whose name contains `name`.
pub open spec fn all_players_sql(name: Option<Seq<char>>) -> Seq<char> {
    match name {
        Some(n) => "SELECT * FROM player WHERE player.name LIKE \"%"@ + n + "%\""@,
        None => "SELECT * FROM player"@,
    }
}

/// The query for all players, or those whose name contains `name`.
pub fn get_all_players_sql(name: Option<&str>) -> (r: String)
    ensures
        r@ == all_players_sql(match name {
            Some(n) => Some(n@),
            None => None,
        }),
{
    match name {
        Some(n) => {
            let mut r = "SELECT * FROM player WHERE player.name LIKE \"%".to_owned();
            r.append(n);
            r.append("%\"");
            r
        },
        None => "SELECT * FROM player".to_owned(),
    }
}

/// The extra columns: `,statistics.a,statistics.b,...`, or nothing.
pub open spec fn statistics_columns(statistics: Option<Seq<Seq<char>>>) -> Seq<char> {
    match statistics {
        Some(s) => if s.len() > 0 {
            ","@ + join_with(s.map_values(|c: Seq<char>| "statistics."@ + c), ","@)
        } else {
            Seq::empty()
        },
        None => Seq::empty(),
    }
}

/// The `WHERE` clause for one player id, or nothing.
pub open spec fn player_id_clause(player_id: Option<Seq<char>>) -> Seq<char> {
    match player_id {
        Some(id) => "WHERE player.id = "@ + id,
        None => Seq::empty(),
    }
}

/// The query for players with their position, optionally one player,
/// optionally with statistics columns.
pub open spec fn player_sql(player_id: Option<Seq<char>>, statistics: Option<Seq<Seq<char>>>) -> Seq<
    char,
> {
    "SELECT player.id, player.name, position.name as position "@ + statistics_columns(statistics)
        + " FROM "@ + JOIN_ALL@ + " "@ + player_id_clause(player_id) + ";"@
}

/// The query for players with their position, optionally one player,
/// optionally with statistics columns.
pub fn get_player_sql(player_id: Option<&str>, statistics: Option<&Vec<String>>) -> (r: String)
    ensures
        r@ == player_sql(
            match player_id {
                Some(p) => Some(p@),
                None => None,
            },
            match statistics {
                Some(s) => Some(string_views(s@)),
                None => None,
            },
        ),
{
    let ghost stats_view = match statistics {
        Some(s) => Some(string_views(s@)),
        None => None::<Seq<Seq<char>>>,
    };
    let mut r = "SELECT player.id, player.name, position.name as position ".to_owned();
    match statistics {
        Some(s) => if s.len() > 0 {
            let mut qualified: Vec<String> = Vec::new();
            let mut i: usize = 0;
            while i < s.len()
                invariant
                    i <= s@.len(),
                    qualified@.len() == i,
                    forall|k: int|
                        0 <= k < i ==> (#[trigger] qualified@[k])@ == "statistics."@ + s@[k]@,
                decreases s.len() - i,
            {
                let mut c = "statistics.".to_owned();
                c.append(s[i].as_str());
                qualified.push(c);
                i = i + 1;
            }
            assert(string_views(qualified@) =~= string_views(s@).map_values(
                |c: Seq<char>| "statistics."@ + c,
            ));
            r.append(",");
            r.append(join_strings(&qualified, ",").as_str());
        },
        None => {},
    }
    assert(r@ =~= "SELECT player.id, player.name, position.name as position "@
        + statistics_columns(stats_view));
    r.append(" FROM ");
    r.append(JOIN_ALL);
    r.append(" ");
    match player_id {
        Some(id) => {
            r.append("WHERE player.id = ");
            r.append(id);
        },
        None => {},
    }
    r.append(";");
    r
}

/// Column names, then one line per row, cells separated by a tab-framed bar.
pub open spec fn rows_text(column_names: Seq<Seq<char>>, rows: Seq<Seq<Seq<char>>>) -> Seq<char> {
    join_with(column_names, "\t|\t"@) + "\n"@ + join_with(
        rows.map_values(|row: Seq<Seq<char>>| join_with(row, "\t|\t"@)),
        "\n"@,
    )
}

/// The text of a result table: the column names on the first line, then
/// one line per row.
pub fn parsed_rows_to_string(column_names: &Vec<String>, values: &Vec<Vec<String>>) -> (r: String)
    ensures
        r@ == rows_text(
            string_views(column_names@),
            values@.map_values(|row: Vec<String>| string_views(row@)),
        ),
{
    let mut lines: Vec<String> = Vec::new();
    let mut i: usize = 0;
    while i < values.len()
        invariant
            i <= values@.len(),
            lines@.len() == i,
            forall|k: int|
                0 <= k < i ==> (#[trigger] lines@[k])@ == join_with(
                    string_views(values@[k]@),
                    "\t|\t"@,
                ),
        decreases values.len() - i,
    {
        lines.push(join_strings(&values[i], "\t|\t"));
        i = i + 1;
    }
    assert(string_views(lines@) =~= values@.map_values(|row: Vec<String>| string_views(row@)).map_values(
        |row: Seq<Seq<char>>| join_with(row, "\t|\t"@),
    ));
    let mut r = join_strings(column_names, "\t|\t");
    r.append("\n");
    r.append(join_strings(&lines, "\n").as_str());
    r
}

/// The CSV columns that the import leaves out.
pub open spec fn ignored_column_names() -> Seq<Seq<char>> {
    seq![
        "Big chances missed"@,
        "Last man tackles"@,
        "Clearances off line"@,
        "Recoveries"@,
        "Duels won"@,
        "Duels lost"@,
        "Successful 50/50s"@,
        "Aerial battles won"@,
        "Aerial battles lost"@,
        "Errors leading to goal"@,
        "Big chances created"@,
        "Through balls"@,
        "Accurate long balls"@,
        "Sweeper clearances"@,
    ]
}

/// The left-out columns of a header, each with its position, in order.
pub open spec fn ignored_columns(header: Seq<Seq<char>>) -> Seq<(int, Seq<char>)>
    decreases header.len(),
{
    if header.len() == 0 {
        Seq::empty()
    } else if ignored_column_names().contains(header.last()) {
        ignored_columns(header.drop_last()).push((header.len() - 1, header.last()))
    } else {
        ignored_columns(header.drop_last())
    }
}

/// The names of the left-out columns.
fn ignored_column_list() -> (r: Vec<String>)
    ensures
        string_views(r@) == ignored_column_names(),
{
    let mut r: Vec<String> = Vec::new();
    r.push("Big chances missed".to_owned());
    r.push("Last man tackles".to_owned());
    r.push("Clearances off line".to_owned());
    r.push("Recoveries".to_owned());
    r.push("Duels won".to_owned());
    r.push("Duels lost".to_owned());
    r.push("Successful 50/50s".to_owned());
    r.push("Aerial battles won".to_owned());
    r.push("Aerial battles lost".to_owned());
    r.push("Errors leading to goal".to_owned());
    r.push("Big chances created".to_owned());
    r.push("Through balls".to_owned());
    r.push("Accurate long balls".to_owned());
    r.push("Sweeper clearances".to_owned());
    assert(string_views(r@) =~= ignored_column_names());
    r
}

/// Whether `name` is one of `names`.
fn is_listed(names: &Vec<String>, name: &String) -> (r: bool)
    ensures
        r == string_views(names@).contains(name@),
{
    let mut i: usize = 0;
    while i < names.len()
        invariant
            i <= names@.len(),
            forall|k: int| 0 <= k < i ==> string_views(names@)[k] != name@,
        decreases names.len() - i,
    {
        if names[i] == *name {
            assert(string_views(names@)[i as int] == name@);
            return true;
        }
        i = i + 1;
    }
    false
}

/// The columns of a CSV header that the import leaves out, with their positions.
pub fn get_ignored_columns(csv_header: &Vec<String>) -> (r: Vec<(usize, String)>)
    ensures
        r@.map_values(|e: (usize, String)| (e.0 as int, e.1@)) == ignored_columns(
            string_views(csv_header@),
        ),
{
    let names = ignored_column_list();
    let ghost h = string_views(csv_header@);
    let mut r: Vec<(usize, String)> = Vec::new();
    let mut i: usize = 0;
    assert(h.subrange(0, 0) =~= Seq::<Seq<char>>::empty());
    assert(r@.map_values(|e: (usize, String)| (e.0 as int, e.1@)) =~= Seq::<(int, Seq<char>)>::empty());
    while i < csv_header.len()
        invariant
            h == string_views(csv_header@),
            string_views(names@) == ignored_column_names(),
            i <= h.len(),
            r@.map_values(|e: (usize, String)| (e.0 as int, e.1@)) == ignored_columns(
                h.subrange(0, i as int),
            ),
        decreases csv_header.len() - i,
    {
        let ghost before = r@.map_values(|e: (usize, String)| (e.0 as int, e.1@));
        assert(h.subrange(0, i + 1).drop_last() =~= h.subrange(0, i as int));
        assert(h.subrange(0, i + 1).last() == csv_header@[i as int]@);
        if is_listed(&names, &csv_header[i]) {
            r.push((i, csv_header[i].clone()));
            assert(r@.map_values(|e: (usize, String)| (e.0 as int, e.1@)) =~= before.push(
                (i as int, csv_header@[i as int]@),
            ));
        }
        i = i + 1;
    }
    assert(h.subrange(0, h.len() as int) =~= h);
    r
}

/// The cells of `row` whose positions are not among `dropped`, in order.
pub open spec fn kept_cells(row: Seq<Seq<char>>, dropped: Seq<int>) -> Seq<Seq<char>>
    decreases row.len(),
{
    if row.len() == 0 {
        Seq::empty()
    } else if dropped.contains(row.len() - 1) {
        kept_cells(row.drop_last(), dropped)
    } else {
        kept_cells(row.drop_last(), dropped).push(row.last())
    }
}

/// Whether `i` is the position of one of the left-out columns.
fn is_dropped(ignored: &Vec<(usize, String)>, i: usize) -> (r: bool)
    ensures
        r == ignored@.map_values(|e: (usize, String)| e.0 as int).contains(i as int),
{
    let ghost pos = ignored@.map_values(|e: (usize, String)| e.0 as int);
    let mut k: usize = 0;
    while k < ignored.len()
        invariant
            pos == ignored@.map_values(|e: (usize, String)| e.0 as int),
            k <= ignored@.len(),
            forall|j: int| 0 <= j < k ==> pos[j] != i,
        decreases ignored.len() - k,
    {
        if ignored[k].0 == i {
            assert(pos[k as int] == i);
            return true;
        }
        k = k + 1;
    }
    false
}

/// A CSV row without the left-out columns.
pub fn drop_columns(row: &Vec<String>, ignored: &Vec<(usize, String)>) -> (r: Vec<String>)
    ensures
        string_views(r@) == kept_cells(
            string_views(row@),
            ignored@.map_values(|e: (usize, String)| e.0 as int),
        ),
{
    let ghost cells = string_views(row@);
    let ghost dropped = ignored@.map_values(|e: (usize, String)| e.0 as int);
    let mut r: Vec<String> = Vec::new();
    let mut i: usize = 0;
    assert(cells.subrange(0, 0) =~= Seq::<Seq<char>>::empty());
    assert(string_views(r@) =~= Seq::<Seq<char>>::empty());
    while i < row.len()
        invariant
            cells == string_views(row@),
            dropped == ignored@.map_values(|e: (usize, String)| e.0 as int),
            i <= cells.len(),
            string_views(r@) == kept_cells(cells.subrange(0, i as int), dropped),
        decreases row.len() - i,
    {
        let ghost before = string_views(r@);
        assert(cells.subrange(0, i + 1).drop_last() =~= cells.subrange(0, i as int));
        assert(cells.subrange(0, i + 1).last() == row@[i as int]@);
        if !is_dropped(ignored, i) {
            r.push(row[i].clone());
            assert(string_views(r@) =~= before.push(row@[i as int]@));
        }
        i = i + 1;
    }
    assert(cells.subrange(0, cells.len() as int) =~= cells);
    r
}

} // verus!
