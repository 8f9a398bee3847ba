//! Metric records as lines of comma-separated values.
use crate::assoc::{lemma_text_insert, text_values, Assoc};
use crate::pipeline::{log_trees, LogEntry, LogTree, MetricRecord, RecordTree};
use crate::samples::{sample_trees, MetricSample, MetricValue, SampleTree, ValueTree};
use crate::text::{characters, decimal, decimal_text, join, joined, signed_decimal, signed_text, texts};
use vstd::prelude::*;
use vstd::string::*;

verus! {

/// Whether a field must be quoted.
pub open spec fn needs_quotes(s: Seq<char>) -> bool {
    s.contains(',') || s.contains('"') || s.contains('\n')
}

/// The text with every quote doubled.
pub open spec fn doubled_quotes(s: Seq<char>) -> Seq<char>
    decreases s.len(),
{
    if s.len() == 0 {
        Seq::empty()
    } else if s.last() == '"' {
        doubled_quotes(s.drop_last()).push('"').push('"')
    } else {
        doubled_quotes(s.drop_last()).push(s.last())
    }
}

/// The text as a field: quoted, with its quotes doubled, where it needs to be.
pub open spec fn csv_field(s: Seq<char>) -> Seq<char> {
    if needs_quotes(s) {
        seq!['"'] + doubled_quotes(s) + seq!['"']
    } else {
        s
    }
}

/// The text as a field.
pub fn escape_csv(s: &str) -> (field: String)
    ensures
        field@ == csv_field(s@),
{
    let list = characters(s);
    let mut quoted = String::new();
    quoted.push('"');
    let mut special: bool = false;
    assert(list@.take(0) =~= Seq::empty());
    assert(quoted@ =~= seq!['"'] + doubled_quotes(list@.take(0)));
    for i in 0..list.len()
        invariant
            list@ == s@,
            quoted@ == seq!['"'] + doubled_quotes(list@.take(i as int)),
            special == needs_quotes(list@.take(i as int)),
    {
        let c: char = list[i];
        proof {
            let part = list@.take(i as int);
            let next = list@.take(i + 1);
            assert(next.drop_last() =~= part);
            assert(next =~= part.push(c));
            lemma_contains_push(part, c, ',');
            lemma_contains_push(part, c, '"');
            lemma_contains_push(part, c, '\n');
        }
        if c == '"' {
            quoted.push('"');
            quoted.push('"');
            special = true;
        } else {
            quoted.push(c);
            if c == ',' || c == '\n' {
                special = true;
            }
        }
        assert(quoted@ =~= seq!['"'] + doubled_quotes(list@.take(i + 1)));
    }
    assert(list@.take(list.len() as int) =~= s@);
    if special {
        quoted.push('"');
        assert(quoted@ =~= csv_field(s@));
        quoted
    } else {
        s.to_owned()
    }
}

proof fn lemma_contains_push(part: Seq<char>, c: char, wanted: char)
    ensures
        part.push(c).contains(wanted) == (part.contains(wanted) || c == wanted),
{
    if part.contains(wanted) {
        let i = choose|i: int| 0 <= i < part.len() && part[i] == wanted;
        assert(part.push(c)[i] == wanted);
    }
    if c == wanted {
        assert(part.push(c)[part.len() as int] == wanted);
    }
    if part.push(c).contains(wanted) {
        let i = choose|i: int| 0 <= i < part.push(c).len() && part.push(c)[i] == wanted;
        if i < part.len() {
            assert(part[i] == wanted);
        }
    }
}

/// A value as a field.
pub open spec fn value_field(value: ValueTree) -> Seq<char> {
    match value {
        ValueTree::Double(d) => d.text,
        ValueTree::Integer(i) => signed_decimal(i as int),
        ValueTree::Text(s) => csv_field(s),
        ValueTree::Bool(b) => if b {
            "true"@
        } else {
            "false"@
        },
        ValueTree::Null => Seq::empty(),
    }
}

/// The paths of the samples without tags, in order.
pub open spec fn plain_paths(samples: Seq<SampleTree>) -> Seq<Seq<char>>
    decreases samples.len(),
{
    if samples.len() == 0 {
        Seq::empty()
    } else if samples.last().tags is None {
        plain_paths(samples.drop_last()).push(samples.last().path)
    } else {
        plain_paths(samples.drop_last())
    }
}

/// The last field known for each path, once the samples without tags have been seen.
pub open spec fn known_fields(
    fields: Map<Seq<char>, Seq<char>>,
    samples: Seq<SampleTree>,
) -> Map<Seq<char>, Seq<char>>
    decreases samples.len(),
{
    if samples.len() == 0 {
        fields
    } else {
        let before = known_fields(fields, samples.drop_last());
        if samples.last().tags is None {
            before.insert(samples.last().path, value_field(samples.last().value))
        } else {
            before
        }
    }
}

/// The field of a column, or nothing.
pub open spec fn field_for(fields: Map<Seq<char>, Seq<char>>, column: Seq<char>) -> Seq<char> {
    if fields.dom().contains(column) {
        fields[column]
    } else {
        Seq::empty()
    }
}

/// The fields of the columns, in order.
pub open spec fn row_fields(
    fields: Map<Seq<char>, Seq<char>>,
    columns: Seq<Seq<char>>,
) -> Seq<Seq<char>> {
    columns.map_values(|c: Seq<char>| field_for(fields, c))
}

/// One log line, with its channel in front.
pub open spec fn log_text(log: LogTree) -> Seq<char> {
    "["@ + log.channel + "] "@ + log.message
}

/// The log lines as one text.
pub open spec fn logs_text(logs: Seq<LogTree>) -> Seq<char> {
    joined(logs.map_values(|l: LogTree| log_text(l)), "; "@)
}

/// The first line of the file.
pub open spec fn header_line(columns: Seq<Seq<char>>) -> Seq<char> {
    "timestamp,interval_ms,collect_ms,"@ + joined(columns, ","@) + ",log\n"@
}

/// The line of a record.
pub open spec fn record_line(
    record: RecordTree,
    columns: Seq<Seq<char>>,
    fields: Map<Seq<char>, Seq<char>>,
) -> Seq<char> {
    csv_field(record.timestamp_iso) + ","@ + decimal(record.interval_ms as nat) + ","@
        + record.collect_ms.text + ","@ + joined(row_fields(fields, columns), ","@) + ","@
        + csv_field(logs_text(record.logs)) + "\n"@
}

/// Writes metric records as lines. The columns are those of the first record; a column that a
/// later record lacks keeps its last field.
pub struct CsvSink {
    columns: Vec<String>,
    last_values: Assoc<String, String>,
    header_written: bool,
}

impl CsvSink {
    /// The columns, once a record has been written.
    pub closed spec fn columns(&self) -> Option<Seq<Seq<char>>> {
        if self.header_written {
            Some(texts(self.columns@))
        } else {
            None
        }
    }

    /// The last field known for each path.
    pub closed spec fn fields(&self) -> Map<Seq<char>, Seq<char>> {
        text_values(self.last_values@)
    }

    /// A sink that has written nothing yet.
    pub fn new() -> (sink: CsvSink)
        ensures
            sink.columns() is None,
            sink.fields() == Map::<Seq<char>, Seq<char>>::empty(),
    {
        let sink = CsvSink {
            columns: Vec::new(),
            last_values: Assoc::new(),
            header_written: false,
        };
        assert(sink.fields() =~= Map::<Seq<char>, Seq<char>>::empty());
        sink
    }

    /// The name of the sink.
    pub fn name(&self) -> (name: &'static str)
        ensures
            name@ == "csv"@,
    {
        "csv"
    }

    /// A value as a field.
    pub fn format_value(value: &MetricValue) -> (field: String)
        ensures
            field@ == value_field(value@),
    {
        match value {
            MetricValue::Double(d) => d.text.clone(),
            MetricValue::Integer(i) => signed_text(*i),
            MetricValue::Text(s) => escape_csv(s.as_str()),
            MetricValue::Bool(b) => if *b {
                "true".to_owned()
            } else {
                "false".to_owned()
            },
            MetricValue::Null => String::new(),
        }
    }

    /// Takes in the fields of the samples without tags.
    fn learn(&mut self, samples: &Vec<MetricSample>)
        ensures
            final(self).fields() == known_fields(old(self).fields(), sample_trees(samples@)),
            final(self).columns() == old(self).columns(),
    {
        let ghost trees = sample_trees(samples@);
        let ghost before = self.fields();
        assert(trees.take(0) =~= Seq::empty());
        for i in 0..samples.len()
            invariant
                trees == sample_trees(samples@),
                before == old(self).fields(),
                self.fields() == known_fields(before, trees.take(i as int)),
                self.columns == old(self).columns,
                self.header_written == old(self).header_written,
        {
            proof {
                assert(trees.take(i + 1).drop_last() =~= trees.take(i as int));
                assert(trees.take(i + 1).last() == samples@[i as int]@);
            }
            let plain = match &samples[i].tags {
                Some(_) => false,
                None => true,
            };
            if plain {
                let ghost held = self.last_values@;
                let path = samples[i].path.clone();
                let field = Self::format_value(&samples[i].value);
                let ghost id = path@;
                self.last_values.insert(path, field);
                proof {
                    lemma_text_insert(held, id, field);
                }
            }
        }
        assert(trees.take(samples.len() as int) =~= trees);
    }

    /// The fields of the columns.
    fn row(&self) -> (row: Vec<String>)
        ensures
            texts(row@) == row_fields(self.fields(), texts(self.columns@)),
    {
        let ghost goal = row_fields(self.fields(), texts(self.columns@));
        let mut row: Vec<String> = Vec::new();
        for i in 0..self.columns.len()
            invariant
                goal == row_fields(self.fields(), texts(self.columns@)),
                row@.len() == i,
                forall|k: int| 0 <= k < i ==> (#[trigger] row@[k])@ == goal[k],
        {
            assert(goal[i as int] == field_for(self.fields(), self.columns@[i as int]@));
            let field = match self.last_values.get(&self.columns[i]) {
                Some(text) => text.clone(),
                None => String::new(),
            };
            row.push(field);
        }
        assert(texts(row@) =~= goal);
        row
    }

    /// The text to write for a record: the header before the first one, then the record's line.
    pub fn consume(&mut self, record: &MetricRecord) -> (text: String)
        ensures
            ({
                let columns = match old(self).columns() {
                    Some(c) => c,
                    None => plain_paths(record@.samples),
                };
                let fields = known_fields(old(self).fields(), record@.samples);
                &&& final(self).columns() == Some(columns)
                &&& final(self).fields() == fields
                &&& text@ == if old(self).columns() is Some {
                    record_line(record@, columns, fields)
                } else {
                    header_line(columns) + record_line(record@, columns, fields)
                }
            }),
    {
        let mut text = String::new();
        if !self.header_written {
            self.columns = untagged_paths(&record.samples);
            self.header_written = true;
            text.append("timestamp,interval_ms,collect_ms,");
            let header = join(&self.columns, ",");
            text.append(header.as_str());
            text.append(",log\n");
            assert(text@ =~= header_line(texts(self.columns@)));
        }
        self.learn(&record.samples);
        let stamp = escape_csv(record.timestamp_iso.as_str());
        text.append(stamp.as_str());
        text.append(",");
        let interval = decimal_text(record.interval_ms);
        text.append(interval.as_str());
        text.append(",");
        text.append(record.collect_ms.text.as_str());
        text.append(",");
        let row = self.row();
        let values = join(&row, ",");
        text.append(values.as_str());
        text.append(",");
        let log = log_column(&record.logs);
        let field = escape_csv(log.as_str());
        text.append(field.as_str());
        text.append("\n");
        assert(text@ =~= if old(self).columns() is Some {
            record_line(record@, texts(self.columns@), self.fields())
        } else {
            header_line(texts(self.columns@)) + record_line(
                record@,
                texts(self.columns@),
                self.fields(),
            )
        });
        text
    }
}

/// The paths of the samples without tags.
fn untagged_paths(samples: &Vec<MetricSample>) -> (paths: Vec<String>)
    ensures
        texts(paths@) == plain_paths(sample_trees(samples@)),
{
    let ghost trees = sample_trees(samples@);
    let mut paths: Vec<String> = Vec::new();
    assert(texts(paths@) =~= plain_paths(trees.take(0)));
    for i in 0..samples.len()
        invariant
            trees == sample_trees(samples@),
            texts(paths@) == plain_paths(trees.take(i as int)),
    {
        proof {
            assert(trees.take(i + 1).drop_last() =~= trees.take(i as int));
            assert(trees.take(i + 1).last() == samples@[i as int]@);
        }
        let ghost before = texts(paths@);
        let plain = match &samples[i].tags {
            Some(_) => false,
            None => true,
        };
        if plain {
            paths.push(samples[i].path.clone());
            assert(texts(paths@) =~= before.push(samples@[i as int].path@));
        }
    }
    assert(trees.take(samples.len() as int) =~= trees);
    paths
}

/// The log lines as one text.
fn log_column(logs: &Vec<LogEntry>) -> (text: String)
    ensures
        text@ == logs_text(log_trees(logs@)),
{
    let ghost goal = log_trees(logs@).map_values(|l: LogTree| log_text(l));
    let mut lines: Vec<String> = Vec::new();
    for i in 0..logs.len()
        invariant
            goal == log_trees(logs@).map_values(|l: LogTree| log_text(l)),
            lines@.len() == i,
            forall|k: int| 0 <= k < i ==> (#[trigger] lines@[k])@ == goal[k],
    {
        assert(goal[i as int] == log_text(logs@[i as int]@));
        let mut line = "[".to_owned();
        line.append(logs[i].channel.as_str());
        line.append("] ");
        line.append(logs[i].message.as_str());
        lines.push(line);
    }
    assert(texts(lines@) =~= goal);
    join(&lines, "; ")
}

/// Reads a field back: quotes around it are taken off and doubled quotes inside become single.
pub open spec fn undoubled(s: Seq<char>) -> Seq<char>
    decreases s.len(),
{
    if s.len() == 0 {
        Seq::empty()
    } else if s.len() >= 2 && s.last() == '"' && s[s.len() - 2] == '"' {
        undoubled(s.drop_last().drop_last()).push('"')
    } else {
        undoubled(s.drop_last()).push(s.last())
    }
}

/// What a field stands for.
pub open spec fn field_content(field: Seq<char>) -> Seq<char> {
    if field.len() >= 2 && field[0] == '"' {
        undoubled(field.subrange(1, field.len() - 1))
    } else {
        field
    }
}

proof fn lemma_undoubled(s: Seq<char>)
    ensures
        undoubled(doubled_quotes(s)) == s,
    decreases s.len(),
{
    if s.len() > 0 {
        let before = doubled_quotes(s.drop_last());
        lemma_undoubled(s.drop_last());
        let d = doubled_quotes(s);
        if s.last() == '"' {
            assert(d.drop_last().drop_last() =~= before);
            assert(undoubled(d) =~= s.drop_last().push('"'));
        } else {
            assert(d.drop_last() =~= before);
            assert(undoubled(d) =~= s.drop_last().push(s.last()));
        }
        assert(s.drop_last().push(s.last()) =~= s);
    }
}

/// No text is lost in a field: what the field stands for is the text.
pub proof fn fields_read_back(s: Seq<char>)
    ensures
        field_content(csv_field(s)) == s,
{
    if needs_quotes(s) {
        lemma_undoubled(s);
        let field = csv_field(s);
        assert(field.subrange(1, field.len() - 1) =~= doubled_quotes(s));
    } else {
        if s.len() >= 2 && s[0] == '"' {
            assert(s.contains('"'));
        }
    }
}

/// A field holds a comma or a line break only between quotes, so fields and lines stay apart.
pub proof fn bare_fields_hold_no_separators(s: Seq<char>)
    ensures
        csv_field(s).len() == 0 || csv_field(s)[0] != '"' ==> !csv_field(s).contains(',')
            && !csv_field(s).contains('\n'),
{
    if needs_quotes(s) {
        assert(csv_field(s)[0] == '"');
    }
}

/// Every line has as many column fields as the header.
pub proof fn rows_are_as_wide_as_the_header(
    fields: Map<Seq<char>, Seq<char>>,
    columns: Seq<Seq<char>>,
)
    ensures
        row_fields(fields, columns).len() == columns.len(),
{
}

/// A column that a record does not carry keeps the field that was known before.
pub proof fn missing_columns_keep_their_field(
    fields: Map<Seq<char>, Seq<char>>,
    samples: Seq<SampleTree>,
    column: Seq<char>,
)
    requires
        forall|i: int|
            0 <= i < samples.len() ==> (#[trigger] samples[i]).tags is Some || samples[i].path
                != column,
    ensures
        field_for(known_fields(fields, samples), column) == field_for(fields, column),
    decreases samples.len(),
{
    if samples.len() > 0 {
        assert(samples[samples.len() - 1].tags is Some || samples[samples.len() - 1].path
            != column);
        assert forall|i: int| 0 <= i < samples.drop_last().len() implies (
        #[trigger] samples.drop_last()[i]).tags is Some || samples.drop_last()[i].path
            != column by {
            assert(samples.drop_last()[i] == samples[i]);
        }
        missing_columns_keep_their_field(fields, samples.drop_last(), column);
    }
}

} // verus!
