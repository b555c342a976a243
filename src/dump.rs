use vstd::prelude::*;
use vstd::string::StringExecFns;
use crate::grid::{GridModel, Tilegrid};
use crate::text::{int_text, push_int};

verus! {

/// The text formats a grid can be written in.
#[derive(Clone, Copy, Debug, PartialEq, Eq, Structural)]
pub enum Format {
    Json,
    Tmx,
    Csv,
}

/// The format a name stands for, if any.
pub open spec fn format_of(name: Seq<char>) -> Option<Format> {
    if name == seq!['j', 's', 'o', 'n'] {
        Some(Format::Json)
    } else if name == seq!['t', 'm', 'x'] {
        Some(Format::Tmx)
    } else if name == seq!['c', 's', 'v'] {
        Some(Format::Csv)
    } else {
        None
    }
}

impl Format {
    /// Recognises `"json"`, `"tmx"` and `"csv"`.
    pub fn from_name(name: &str) -> (r: Option<Format>)
        ensures
            r == format_of(name@),
    {
        proof {
            reveal_strlit("json");
            reveal_strlit("tmx");
            reveal_strlit("csv");
            assert("json"@ =~= seq!['j', 's', 'o', 'n']);
            assert("tmx"@ =~= seq!['t', 'm', 'x']);
            assert("csv"@ =~= seq!['c', 's', 'v']);
        }
        let name = name.to_owned();
        if name == "json".to_owned() {
            Some(Format::Json)
        } else if name == "tmx".to_owned() {
            Some(Format::Tmx)
        } else if name == "csv".to_owned() {
            Some(Format::Csv)
        } else {
            None
        }
    }
}

/// The values of `s`, each shifted by `shift`, in decimal, with `sep` between neighbours.
pub open spec fn joined(s: Seq<i32>, sep: Seq<char>, shift: int) -> Seq<char>
    decreases s.len(),
{
    if s.len() == 0 {
        Seq::empty()
    } else if s.len() == 1 {
        int_text(s[0] + shift)
    } else {
        joined(s.drop_last(), sep, shift) + sep + int_text(s.last() + shift)
    }
}

impl GridModel {
    /// The cells of row `r`, left to right.
    pub open spec fn row(self, r: int) -> Seq<i32> {
        self.tiles.subrange(r * self.width, r * self.width + self.width)
    }

    /// The first `n` rows, each as its values with `sep` between them and a line break after.
    pub open spec fn lines(self, n: nat, sep: Seq<char>) -> Seq<char>
        decreases n,
    {
        if n == 0 {
            Seq::empty()
        } else {
            self.lines((n - 1) as nat, sep) + joined(self.row(n - 1), sep, 0) + seq!['\n']
        }
    }

    /// CSV: one line per row, values separated by commas.
    pub open spec fn csv_text(self) -> Seq<char> {
        self.lines(self.height, seq![','])
    }

    /// One line per row, values written one after the other with nothing between them.
    pub open spec fn plain_text(self) -> Seq<char> {
        self.lines(self.height, Seq::empty())
    }

    /// The first `n` rows as JSON arrays, separated by commas.
    pub open spec fn json_rows(self, n: nat) -> Seq<char>
        decreases n,
    {
        if n == 0 {
            Seq::empty()
        } else if n == 1 {
            seq!['['] + joined(self.row(0), seq![','], 0) + seq![']']
        } else {
            self.json_rows((n - 1) as nat) + seq![',', '['] + joined(self.row(n - 1), seq![','], 0)
                + seq![']']
        }
    }

    /// `{"width":W,"height":H,"tiles":[[..],..]}` with no white space.
    pub open spec fn json_text(self) -> Seq<char> {
        "{\"width\":"@ + int_text(self.width as int) + ",\"height\":"@ + int_text(
            self.height as int,
        ) + ",\"tiles\":["@ + self.json_rows(self.height) + "]}"@
    }

    /// The first `n` rows of a TMX CSV layer: global tile ids (value plus one), separated
    /// by commas, with a line break after each row's last comma.
    pub open spec fn tmx_rows(self, n: nat) -> Seq<char>
        decreases n,
    {
        if n == 0 {
            Seq::empty()
        } else if n == 1 {
            joined(self.row(0), seq![','], 1)
        } else {
            self.tmx_rows((n - 1) as nat) + seq![',', '\n'] + joined(self.row(n - 1), seq![','], 1)
        }
    }

    /// A TMX map of one CSV-encoded layer.
    pub open spec fn tmx_text(self) -> Seq<char> {
        "<?xml version=\"1.0\" encoding=\"UTF-8\"?>\n<map version=\"1.0\" orientation=\"orthogonal\" renderorder=\"right-down\" width=\""@
            + int_text(self.width as int) + "\" height=\""@ + int_text(self.height as int)
            + "\" tilewidth=\"32\" tileheight=\"32\">\n <layer name=\"tiles\" width=\""@
            + int_text(self.width as int) + "\" height=\""@ + int_text(self.height as int)
            + "\">\n  <data encoding=\"csv\">\n"@ + self.tmx_rows(self.height)
            + "\n</data>\n </layer>\n</map>\n"@
    }

    /// What `dump` writes for a format name: empty for an unknown name.
    pub open spec fn dump_text(self, name: Seq<char>) -> Seq<char> {
        match format_of(name) {
            Some(Format::Json) => self.json_text(),
            Some(Format::Tmx) => self.tmx_text(),
            Some(Format::Csv) => self.csv_text(),
            None => Seq::empty(),
        }
    }
}

/// Any name other than `json`, `tmx` and `csv` dumps to the empty string, whatever the grid.
pub proof fn law_unknown_format_is_empty(m: GridModel, name: Seq<char>)
    requires
        format_of(name) is None,
    ensures
        m.dump_text(name) == Seq::<char>::empty(),
{
}

/// Two dumps of the same grid content in the same format are identical.
pub proof fn law_dump_repeatable(m: GridModel, name: Seq<char>, first: Seq<char>, second: Seq<char>)
    requires
        first == m.dump_text(name),
        second == m.dump_text(name),
    ensures
        first == second,
{
}

proof fn lemma_row_bounds(w: int, h: int, r: int)
    requires
        0 <= w,
        0 <= r < h,
    ensures
        0 <= r * w,
        r * w + w <= w * h,
{
    assert(0 <= r * w) by (nonlinear_arith)
        requires
            0 <= w,
            0 <= r,
    ;
    assert(r * w + w <= w * h) by (nonlinear_arith)
        requires
            0 <= w,
            0 <= r < h,
    ;
}

/// Appends the values `tiles[start .. start + len]`, each shifted by `shift`.
fn push_row(out: &mut String, tiles: &[i32], start: usize, len: usize, sep: &str, shift: i64)
    requires
        start + len <= tiles@.len(),
        0 <= shift <= 1,
    ensures
        final(out)@ == old(out)@ + joined(
            tiles@.subrange(start as int, start + len),
            sep@,
            shift as int,
        ),
{
    let n: usize = tiles.len();
    let mut j: usize = 0;
    while j < len
        invariant
            n == tiles@.len(),
            j <= len,
            start + len <= tiles@.len(),
            0 <= shift <= 1,
            out@ == old(out)@ + joined(tiles@.subrange(start as int, start + j), sep@, shift as int),
        decreases len - j,
    {
        let ghost before = out@;
        if j > 0 {
            out.append(sep);
        }
        push_int(out, tiles[start + j] as i64 + shift);
        proof {
            let s = tiles@.subrange(start as int, start + j + 1);
            assert(s.drop_last() =~= tiles@.subrange(start as int, start + j));
            assert(out@ =~= old(out)@ + joined(s, sep@, shift as int));
        }
        j = j + 1;
    }
}

impl Tilegrid {
    /// Appends the first `n` rows as `GridModel::lines` writes them.
    fn push_lines(&self, out: &mut String, sep: &str)
        requires
            self.wf(),
        ensures
            final(out)@ == old(out)@ + self@.lines(self@.height, sep@),
    {
        let tiles = self.get_all_tiles();
        let w = self.width();
        let h = self.height();
        let n: usize = tiles.len();
        let mut r: u32 = 0;
        while r < h
            invariant
                self.wf(),
                tiles@ == self@.tiles,
                n == tiles@.len(),
                w == self@.width,
                h == self@.height,
                r <= h,
                out@ == old(out)@ + self@.lines(r as nat, sep@),
            decreases h - r,
        {
            proof {
                lemma_row_bounds(w as int, h as int, r as int);
            }
            let start: usize = r as usize * w as usize;
            push_row(out, tiles, start, w as usize, sep, 0);
            proof { reveal_strlit("\n"); }
            out.append("\n");
            r = r + 1;
            assert(out@ =~= old(out)@ + self@.lines(r as nat, sep@));
        }
    }

    /// The grid as CSV.
    pub fn dump_csv(&self) -> (r: String)
        requires
            self.wf(),
        ensures
            r@ == self@.csv_text(),
    {
        let mut out = String::new();
        proof {
            reveal_strlit(",");
            assert(","@ =~= seq![',']);
        }
        self.push_lines(&mut out, ",");
        assert(out@ =~= self@.csv_text());
        out
    }

    /// One line per row, values written one after the other with nothing between them.
    pub fn plain_text(&self) -> (r: String)
        requires
            self.wf(),
        ensures
            r@ == self@.plain_text(),
    {
        let mut out = String::new();
        proof {
            reveal_strlit("");
            assert(""@ =~= Seq::<char>::empty());
        }
        self.push_lines(&mut out, "");
        assert(out@ =~= self@.plain_text());
        out
    }

    /// The grid as a JSON object with its width, height and an array of rows.
    pub fn dump_json(&self) -> (r: String)
        requires
            self.wf(),
        ensures
            r@ == self@.json_text(),
    {
        let tiles = self.get_all_tiles();
        let w = self.width();
        let h = self.height();
        let n: usize = tiles.len();
        let mut out = String::new();
        out.append("{\"width\":");
        push_int(&mut out, w as i64);
        out.append(",\"height\":");
        push_int(&mut out, h as i64);
        out.append(",\"tiles\":[");
        let ghost head = out@;
        proof {
            reveal_strlit(",");
            reveal_strlit("[");
            reveal_strlit("]");
            reveal_strlit(",[");
            assert(","@ =~= seq![',']);
            assert("["@ =~= seq!['[']);
            assert("]"@ =~= seq![']']);
            assert(",["@ =~= seq![',', '[']);
        }
        let mut r: u32 = 0;
        while r < h
            invariant
                self.wf(),
                tiles@ == self@.tiles,
                n == tiles@.len(),
                w == self@.width,
                h == self@.height,
                r <= h,
                out@ == head + self@.json_rows(r as nat),
                ","@ == seq![','],
                "["@ == seq!['['],
                "]"@ == seq![']'],
                ",["@ == seq![',', '['],
            decreases h - r,
        {
            proof {
                lemma_row_bounds(w as int, h as int, r as int);
            }
            let start: usize = r as usize * w as usize;
            if r == 0 {
                out.append("[");
            } else {
                out.append(",[");
            }
            push_row(&mut out, tiles, start, w as usize, ",", 0);
            out.append("]");
            r = r + 1;
            assert(out@ =~= head + self@.json_rows(r as nat));
        }
        out.append("]}");
        assert(out@ =~= self@.json_text());
        out
    }

    /// The grid as a TMX map. TMX reserves global id 0 for an empty cell, so each value
    /// `v` is written as `v + 1`: the empty value `-1` becomes `0`, and tile `t` of the
    /// map's first tileset is `t + 1`.
    pub fn dump_tmx(&self) -> (r: String)
        requires
            self.wf(),
        ensures
            r@ == self@.tmx_text(),
    {
        let tiles = self.get_all_tiles();
        let w = self.width();
        let h = self.height();
        let n: usize = tiles.len();
        let mut out = String::new();
        out.append(
            "<?xml version=\"1.0\" encoding=\"UTF-8\"?>\n<map version=\"1.0\" orientation=\"orthogonal\" renderorder=\"right-down\" width=\"",
        );
        push_int(&mut out, w as i64);
        out.append("\" height=\"");
        push_int(&mut out, h as i64);
        out.append("\" tilewidth=\"32\" tileheight=\"32\">\n <layer name=\"tiles\" width=\"");
        push_int(&mut out, w as i64);
        out.append("\" height=\"");
        push_int(&mut out, h as i64);
        out.append("\">\n  <data encoding=\"csv\">\n");
        let ghost head = out@;
        proof {
            reveal_strlit(",");
            reveal_strlit(",\n");
            assert(","@ =~= seq![',']);
            assert(",\n"@ =~= seq![',', '\n']);
        }
        let mut r: u32 = 0;
        while r < h
            invariant
                self.wf(),
                tiles@ == self@.tiles,
                n == tiles@.len(),
                w == self@.width,
                h == self@.height,
                r <= h,
                out@ == head + self@.tmx_rows(r as nat),
                ","@ == seq![','],
                ",\n"@ == seq![',', '\n'],
            decreases h - r,
        {
            proof {
                lemma_row_bounds(w as int, h as int, r as int);
            }
            let start: usize = r as usize * w as usize;
            if r > 0 {
                out.append(",\n");
            }
            push_row(&mut out, tiles, start, w as usize, ",", 1);
            r = r + 1;
            assert(out@ =~= head + self@.tmx_rows(r as nat));
        }
        out.append("\n</data>\n </layer>\n</map>\n");
        assert(out@ =~= self@.tmx_text());
        out
    }

    /// The grid written in the format named `format` (`"json"`, `"tmx"` or `"csv"`);
    /// an empty string for any other name.
    pub fn dump(&self, format: &str) -> (r: String)
        requires
            self.wf(),
        ensures
            r@ == self@.dump_text(format@),
            format_of(format@) is None ==> r@.len() == 0,
    {
        match Format::from_name(format) {
            Some(Format::Json) => self.dump_json(),
            Some(Format::Tmx) => self.dump_tmx(),
            Some(Format::Csv) => self.dump_csv(),
            None => String::new(),
        }
    }
}

} // verus!
