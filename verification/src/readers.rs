//! Configuration of the delimited-text readers and writers.
//!
//! The engine itself never touches a file: the surrounding program reads
//! lines, splits them on the configured separator and hands the cell values
//! in, and takes composed rows back out.  What lives here is the pure part:
//! the column layout, its validation against the width of the file's first
//! parsable line, and the per-line extraction of the edge and type fields.
//! Weights travel as IEEE-754 bit patterns; turning a decimal string into
//! such a pattern is the caller's (floating-point) business.

use vstd::prelude::*;
use crate::types::{WeightBitsT, spec_is_valid_weight, is_valid_weight};

verus! {

/// The pure configuration of a delimited-text reader: everything but the
/// file handle.
pub struct CsvFileReader {
    /// Where the file lives; carried for error messages only.
    pub path: String,
    /// Whether progress should be reported.
    pub verbose: bool,
    /// The cell separator.
    pub separator: String,
    /// Whether the first row is a header.
    pub header: bool,
    /// How many rows to skip before reading.
    pub rows_to_skip: usize,
    /// Whether duplicate rows are skipped rather than reported.
    pub ignore_duplicates: bool,
    /// Whether the caller vouches for the file being well formed.
    pub csv_is_correct: bool,
    /// Rows starting with this symbol are skipped.
    pub comment_symbol: Option<String>,
    /// An upper bound on the number of rows to read.
    pub max_rows_number: Option<u64>,
    /// The column names of the header row, when one was read.
    pub column_names: Vec<String>,
    /// The number of cells of the first parsable line, when known.
    pub elements_per_line: Option<usize>,
}

impl CsvFileReader {
    /// Returns a reader configuration with the default layout.
    pub fn new(path: String) -> (r: CsvFileReader)
        ensures
            r.path@ == path@,
            r.verbose == false,
            r.separator@ == "\t"@,
            r.header == true,
            r.rows_to_skip == 0,
            r.ignore_duplicates == true,
            r.csv_is_correct == false,
            r.comment_symbol is None,
            r.max_rows_number is None,
            r.column_names@.len() == 0,
            r.elements_per_line is None,
    {
        CsvFileReader {
            path,
            verbose: false,
            separator: String::from_str("\t"),
            header: true,
            rows_to_skip: 0,
            ignore_duplicates: true,
            csv_is_correct: false,
            comment_symbol: None,
            max_rows_number: None,
            column_names: Vec::new(),
            elements_per_line: None,
        }
    }

    /// Records what the surrounding program learned by peeking at the
    /// file: the header's column names and the width of the first parsable
    /// line.
    pub fn set_file_shape(self, column_names: Vec<String>, elements_per_line: usize) -> (r:
        CsvFileReader)
        ensures
            r.column_names@ == column_names@,
            r.elements_per_line == Some(elements_per_line),
            r.separator == self.separator,
            r.header == self.header,
    {
        let mut this = self;
        this.column_names = column_names;
        this.elements_per_line = Some(elements_per_line);
        this
    }

    /// Returns the index of the named column, or an error when the header
    /// has no such column.
    pub fn get_column_number(&self, column: &String) -> (r: Result<usize, String>)
        ensures
            r.is_ok() ==> r.unwrap() < self.column_names@.len() && self.column_names@[
                r.unwrap() as int]@ == column@ && (forall|i: int|
                0 <= i < r.unwrap() ==> (#[trigger] self.column_names@[i])@ != column@),
            r.is_err() ==> forall|i: int|
                0 <= i < self.column_names@.len() ==> (#[trigger] self.column_names@[i])@
                    != column@,
    {
        let mut i: usize = 0;
        while i < self.column_names.len()
            invariant
                i <= self.column_names@.len(),
                forall|j: int| 0 <= j < i ==> (#[trigger] self.column_names@[j])@ != column@,
            decreases self.column_names@.len() - i,
        {
            if self.column_names[i] == *column {
                return Ok(i);
            }
            i = i + 1;
        }
        Err(String::from_str("The given column name is not in the file's header."))
    }

    /// Returns the width of the first parsable line, or an error when it is
    /// not known yet.
    pub fn get_elements_per_line(&self) -> (r: Result<usize, String>)
        ensures
            r.is_ok() <==> self.elements_per_line is Some,
            r.is_ok() ==> Some(r.unwrap()) == self.elements_per_line,
    {
        match self.elements_per_line {
            Some(n) => Ok(n),
            None => Err(
                String::from_str("The width of the file's first parsable line is not known."),
            ),
        }
    }
}

/// Validates an optional edge weight given as its bit pattern: a present
/// weight must be a strictly positive finite number.
pub fn parse_edge_weight(weight: Option<WeightBitsT>) -> (r: Result<Option<WeightBitsT>, String>)
    ensures
        r.is_ok() <==> (weight is None || spec_is_valid_weight(weight.unwrap())),
        r.is_ok() ==> r.unwrap() == weight,
{
    match weight {
        None => Ok(None),
        Some(w) => {
            if is_valid_weight(w) {
                Ok(Some(w))
            } else {
                Err(String::from_str(
                    "The given weight is not a strictly positive finite number.",
                ))
            }
        },
    }
}

/// The reader configuration of an edge list file.
pub struct EdgeFileReader {
    /// The underlying delimited-text configuration.
    pub reader: CsvFileReader,
    /// The cell index of the source node name.
    pub sources_column_number: usize,
    /// The cell index of the destination node name.
    pub destinations_column_number: usize,
    /// The cell index of the edge type, when edge types are read.
    pub edge_types_column_number: Option<usize>,
    /// The edge type to use when the cell is empty.
    pub default_edge_type: Option<String>,
    /// The cell index of the weight, when weights are read.
    pub weights_column_number: Option<usize>,
    /// The weight bit pattern to use when the cell is empty.
    pub default_weight: Option<WeightBitsT>,
    /// Whether selfloop rows are skipped.
    pub skip_self_loops: bool,
}

impl EdgeFileReader {
    /// Returns an edge list reader with the default layout: sources in the
    /// first column, destinations in the second, no types, no weights.
    pub fn new(path: String) -> (r: Result<EdgeFileReader, String>)
        ensures
            r.is_ok(),
            r.unwrap().sources_column_number == 0,
            r.unwrap().destinations_column_number == 1,
            r.unwrap().edge_types_column_number is None,
            r.unwrap().weights_column_number is None,
            r.unwrap().default_edge_type is None,
            r.unwrap().default_weight is None,
            !r.unwrap().skip_self_loops,
    {
        Ok(
            EdgeFileReader {
                reader: CsvFileReader::new(path),
                sources_column_number: 0,
                destinations_column_number: 1,
                edge_types_column_number: None,
                default_edge_type: None,
                weights_column_number: None,
                default_weight: None,
                skip_self_loops: false,
            },
        )
    }

    /// Sets the source column by name, when one is given.
    pub fn set_sources_column(self, sources_column: Option<String>) -> (r: Result<
        EdgeFileReader,
        String,
    >)
        ensures
            sources_column is None ==> r == Result::<EdgeFileReader, String>::Ok(self),
            r.is_ok() <==> (sources_column is None || exists|i: int|
                0 <= i < self.reader.column_names@.len() && (
                #[trigger] self.reader.column_names@[i])@ == sources_column.unwrap()@),
            r.is_ok() && sources_column is Some ==> r.unwrap() == (EdgeFileReader {
                sources_column_number: r.unwrap().sources_column_number,
                ..self
            }) && r.unwrap().sources_column_number < self.reader.column_names@.len()
                && self.reader.column_names@[r.unwrap().sources_column_number as int]@ == sources_column.unwrap()@,
    {
        let mut this = self;
        if let Some(column) = sources_column {
            let n = this.reader.get_column_number(&column)?;
            this.sources_column_number = n;
        }
        Ok(this)
    }

    /// Sets the source column by index, when one is given; the index must
    /// lie within the first parsable line.
    pub fn set_sources_column_number(self, sources_column_number: Option<usize>) -> (r: Result<
        EdgeFileReader,
        String,
    >)
        ensures
            sources_column_number is None ==> r == Result::<EdgeFileReader, String>::Ok(self),
            r.is_ok() && sources_column_number is Some ==> r.unwrap().sources_column_number
                == sources_column_number.unwrap(),
    {
        let mut this = self;
        if let Some(column) = sources_column_number {
            if let Some(expected) = this.reader.elements_per_line {
                if column >= expected {
                    return Err(String::from_str(
                        "The source column number exceeds the width of the first parsable line.",
                    ));
                }
            }
            this.sources_column_number = column;
        }
        Ok(this)
    }

    /// Sets the destination column by name, when one is given.
    pub fn set_destinations_column(self, destinations_column: Option<String>) -> (r: Result<
        EdgeFileReader,
        String,
    >)
        ensures
            destinations_column is None ==> r == Result::<EdgeFileReader, String>::Ok(self),
            r.is_ok() <==> (destinations_column is None || exists|i: int|
                0 <= i < self.reader.column_names@.len() && (
                #[trigger] self.reader.column_names@[i])@ == destinations_column.unwrap()@),
            r.is_ok() && destinations_column is Some ==> r.unwrap() == (EdgeFileReader {
                destinations_column_number: r.unwrap().destinations_column_number,
                ..self
            }) && r.unwrap().destinations_column_number < self.reader.column_names@.len()
                && self.reader.column_names@[r.unwrap().destinations_column_number as int]@ == destinations_column.unwrap()@,
    {
        let mut this = self;
        if let Some(column) = destinations_column {
            let n = this.reader.get_column_number(&column)?;
            this.destinations_column_number = n;
        }
        Ok(this)
    }

    /// Sets the destination column by index, when one is given.
    pub fn set_destinations_column_number(self, destinations_column_number: Option<usize>) -> (
        r: Result<EdgeFileReader, String>)
        ensures
            destinations_column_number is None ==> r == Result::<EdgeFileReader, String>::Ok(self),
            r.is_ok() <==> (destinations_column_number is None
                || self.reader.elements_per_line is None || destinations_column_number.unwrap()
                < self.reader.elements_per_line.unwrap()),
            r.is_ok() && destinations_column_number is Some ==> r.unwrap() == (EdgeFileReader {
                destinations_column_number: destinations_column_number.unwrap(),
                ..self
            }),
    {
        let mut this = self;
        if let Some(column) = destinations_column_number {
            if let Some(expected) = this.reader.elements_per_line {
                if column >= expected {
                    return Err(String::from_str(
                        "The destinations column number exceeds the width of the first parsable line.",
                    ));
                }
            }
            this.destinations_column_number = column;
        }
        Ok(this)
    }

    /// Sets the edge type column by name, when one is given.
    pub fn set_edge_types_column(self, edge_type_column: Option<String>) -> (r: Result<
        EdgeFileReader,
        String,
    >)
        ensures
            edge_type_column is None ==> r == Result::<EdgeFileReader, String>::Ok(self),
            r.is_ok() <==> (edge_type_column is None || exists|i: int|
                0 <= i < self.reader.column_names@.len() && (
                #[trigger] self.reader.column_names@[i])@ == edge_type_column.unwrap()@),
            r.is_ok() && edge_type_column is Some ==> r.unwrap() == (EdgeFileReader {
                edge_types_column_number: r.unwrap().edge_types_column_number,
                ..self
            }) && r.unwrap().edge_types_column_number is Some && r.unwrap().edge_types_column_number.unwrap()
                < self.reader.column_names@.len() && self.reader.column_names@[
                r.unwrap().edge_types_column_number.unwrap() as int]@ == edge_type_column.unwrap()@,
    {
        let mut this = self;
        if let Some(column) = edge_type_column {
            let n = this.reader.get_column_number(&column)?;
            this.edge_types_column_number = Some(n);
        }
        Ok(this)
    }

    /// Sets the edge type column by index, when one is given.
    pub fn set_edge_types_column_number(self, edge_types_column_number: Option<usize>) -> (r:
        Result<EdgeFileReader, String>)
        ensures
            r.is_ok() <==> (edge_types_column_number is None || self.reader.elements_per_line is None
                || edge_types_column_number.unwrap() < self.reader.elements_per_line.unwrap()),
            r.is_ok() ==> r.unwrap() == (EdgeFileReader { edge_types_column_number: edge_types_column_number, ..self }),
    {
        let mut this = self;
        if let Some(etcn) = edge_types_column_number {
            if let Some(expected) = this.reader.elements_per_line {
                if etcn >= expected {
                    return Err(String::from_str(
                        "The edge types column number exceeds the width of the first parsable line.",
                    ));
                }
            }
        }
        this.edge_types_column_number = edge_types_column_number;
        Ok(this)
    }

    /// Sets the weight column by name, when one is given.
    pub fn set_weights_column(self, weights_column: Option<String>) -> (r: Result<
        EdgeFileReader,
        String,
    >)
        ensures
            weights_column is None ==> r == Result::<EdgeFileReader, String>::Ok(self),
            r.is_ok() <==> (weights_column is None || exists|i: int|
                0 <= i < self.reader.column_names@.len() && (
                #[trigger] self.reader.column_names@[i])@ == weights_column.unwrap()@),
            r.is_ok() && weights_column is Some ==> r.unwrap() == (EdgeFileReader {
                weights_column_number: r.unwrap().weights_column_number,
                ..self
            }) && r.unwrap().weights_column_number is Some && r.unwrap().weights_column_number.unwrap()
                < self.reader.column_names@.len() && self.reader.column_names@[
                r.unwrap().weights_column_number.unwrap() as int]@ == weights_column.unwrap()@,
    {
        let mut this = self;
        if let Some(column) = weights_column {
            let n = this.reader.get_column_number(&column)?;
            this.weights_column_number = Some(n);
        }
        Ok(this)
    }

    /// Sets the weight column by index, when one is given.
    pub fn set_weights_column_number(self, weights_column_number: Option<usize>) -> (r: Result<
        EdgeFileReader,
        String,
    >)
        ensures
            r.is_ok() <==> (weights_column_number is None || self.reader.elements_per_line is None
                || weights_column_number.unwrap() < self.reader.elements_per_line.unwrap()),
            r.is_ok() ==> r.unwrap() == (EdgeFileReader { weights_column_number: weights_column_number, ..self }),
    {
        let mut this = self;
        if let Some(wcn) = weights_column_number {
            if let Some(expected) = this.reader.elements_per_line {
                if wcn >= expected {
                    return Err(String::from_str(
                        "The weights column number exceeds the width of the first parsable line.",
                    ));
                }
            }
        }
        this.weights_column_number = weights_column_number;
        Ok(this)
    }

    /// Sets the weight bit pattern used for empty weight cells.
    pub fn set_default_weight(self, default_weight: Option<WeightBitsT>) -> (r: EdgeFileReader)
        ensures
            r == (EdgeFileReader { default_weight, ..self }),
    {
        let mut this = self;
        this.default_weight = default_weight;
        this
    }

    /// Sets the edge type used for empty edge type cells.
    pub fn set_default_edge_type(self, default_edge_type: Option<String>) -> (r:
        EdgeFileReader)
        ensures
            r == (EdgeFileReader { default_edge_type, ..self }),
    {
        let mut this = self;
        this.default_edge_type = default_edge_type;
        this
    }

    /// Sets whether selfloop rows are skipped, when a choice is given.
    pub fn set_skip_self_loops(self, skip_self_loops: Option<bool>) -> (r: EdgeFileReader)
        ensures
            skip_self_loops is None ==> r == self,
            skip_self_loops is Some ==> r == (EdgeFileReader {
                skip_self_loops: skip_self_loops.unwrap(),
                ..self
            }),
    {
        let mut this = self;
        if let Some(i) = skip_self_loops {
            this.skip_self_loops = i;
        }
        this
    }

    /// Sets whether progress is reported, when a choice is given.
    pub fn set_verbose(self, verbose: Option<bool>) -> (r: EdgeFileReader)
        ensures
            verbose is None ==> r == self,
            verbose is Some ==> r == (EdgeFileReader {
                reader: (CsvFileReader { verbose: verbose.unwrap(), ..self.reader }),
                ..self
            }),
    {
        let mut this = self;
        if let Some(v) = verbose {
            this.reader.verbose = v;
        }
        this
    }

    /// Sets whether duplicate rows are skipped, when a choice is given.
    pub fn set_ignore_duplicates(self, ignore_duplicates: Option<bool>) -> (r: EdgeFileReader)
        ensures
            ignore_duplicates is None ==> r == self,
            ignore_duplicates is Some ==> r == (EdgeFileReader {
                reader: (CsvFileReader {
                    ignore_duplicates: ignore_duplicates.unwrap(),
                    ..self.reader
                }),
                ..self
            }),
    {
        let mut this = self;
        if let Some(v) = ignore_duplicates {
            this.reader.ignore_duplicates = v;
        }
        this
    }

    /// Sets the cell separator, when one is given; any separator is
    /// accepted, the empty string included.
    pub fn set_separator(self, separator: Option<String>) -> (r: EdgeFileReader)
        ensures
            separator is None ==> r == self,
            separator is Some ==> r.reader.separator@ == separator.unwrap()@ && r == (
            EdgeFileReader {
                reader: (CsvFileReader { separator: r.reader.separator, ..self.reader }),
                ..self
            }),
    {
        let mut this = self;
        if let Some(v) = separator {
            this.reader.separator = v;
        }
        this
    }

    /// Sets whether a header row is expected, when a choice is given.
    pub fn set_header(self, header: Option<bool>) -> (r: EdgeFileReader)
        ensures
            header is None ==> r == self,
            header is Some ==> r == (EdgeFileReader {
                reader: (CsvFileReader { header: header.unwrap(), ..self.reader }),
                ..self
            }),
    {
        let mut this = self;
        if let Some(v) = header {
            this.reader.header = v;
        }
        this
    }

    /// Sets how many rows to skip, when a count is given.
    pub fn set_rows_to_skip(self, rows_to_skip: Option<usize>) -> (r: EdgeFileReader)
        ensures
            rows_to_skip is None ==> r == self,
            rows_to_skip is Some ==> r == (EdgeFileReader {
                reader: (CsvFileReader { rows_to_skip: rows_to_skip.unwrap(), ..self.reader }),
                ..self
            }),
    {
        let mut this = self;
        if let Some(v) = rows_to_skip {
            this.reader.rows_to_skip = v;
        }
        this
    }

    /// Whether a split row can be parsed under this configuration: every
    /// configured column is present, and an empty edge-type or weight cell
    /// has a default to fall back on.
    pub open spec fn spec_line_parses(&self, vals: Seq<String>) -> bool {
        &&& self.sources_column_number < vals.len()
        &&& self.destinations_column_number < vals.len()
        &&& (self.edge_types_column_number is Some ==> self.edge_types_column_number.unwrap()
            < vals.len() && (vals[self.edge_types_column_number.unwrap() as int]@.len() > 0
            || self.default_edge_type is Some))
        &&& (self.weights_column_number is Some ==> self.weights_column_number.unwrap()
            < vals.len() && (vals[self.weights_column_number.unwrap() as int]@.len() > 0
            || self.default_weight is Some))
    }

    /// Extracts one edge row from the already-split cells of a line: source
    /// name, destination name, optional edge type (with the default applied
    /// to an empty cell) and the raw weight cell (left out when empty, so
    /// that the default weight applies downstream).  Fails exactly when a
    /// configured column is missing from the row, or when the edge type or
    /// weight cell is empty with no default configured.
    pub fn parse_edge_line(&self, vals: Vec<String>) -> (r: Result<
        (String, String, Option<String>, Option<String>),
        String,
    >)
        ensures
            r.is_ok() <==> self.spec_line_parses(vals@),
            r.is_ok() ==> {
                let (src, dst, et, w) = r.unwrap();
                &&& src@ == vals@[self.sources_column_number as int]@
                &&& dst@ == vals@[self.destinations_column_number as int]@
                &&& (self.edge_types_column_number is None ==> et is None)
                &&& (self.edge_types_column_number is Some ==> et is Some && (if vals@[
                    self.edge_types_column_number.unwrap() as int]@.len() > 0 {
                    et.unwrap()@ == vals@[self.edge_types_column_number.unwrap() as int]@
                } else {
                    et.unwrap()@ == self.default_edge_type.unwrap()@
                }))
                &&& (self.weights_column_number is None ==> w is None)
                &&& (self.weights_column_number is Some ==> (if vals@[
                    self.weights_column_number.unwrap() as int]@.len() > 0 {
                    w is Some && w.unwrap()@ == vals@[self.weights_column_number.unwrap() as int]@
                } else {
                    w is None
                }))
            },
    {
        if self.sources_column_number >= vals.len() {
            return Err(String::from_str("The source column is missing from the row."));
        }
        if self.destinations_column_number >= vals.len() {
            return Err(String::from_str("The destination column is missing from the row."));
        }
        let source_node_name = vals[self.sources_column_number].clone();
        let destination_node_name = vals[self.destinations_column_number].clone();
        let edge_type: Option<String> = match self.edge_types_column_number {
            None => None,
            Some(idx) => {
                if idx >= vals.len() {
                    return Err(String::from_str("The edge type column is missing from the row."));
                }
                let curr = vals[idx].clone();
                if curr.as_str().unicode_len() > 0 {
                    Some(curr)
                } else {
                    match &self.default_edge_type {
                        Some(def) => Some(def.clone()),
                        None => {
                            return Err(String::from_str(
                                "Found an empty edge type but no default edge type to use was provided.",
                            ));
                        },
                    }
                }
            },
        };
        let edge_weight: Option<String> = match self.weights_column_number {
            None => None,
            Some(idx) => {
                if idx >= vals.len() {
                    return Err(String::from_str("The weight column is missing from the row."));
                }
                let curr = vals[idx].clone();
                if curr.as_str().unicode_len() > 0 {
                    Some(curr)
                } else {
                    match self.default_weight {
                        Some(_) => None,  // the default applies downstream
                        None => {
                            return Err(String::from_str(
                                "Found an empty weight but no default weight to use was provided.",
                            ));
                        },
                    }
                }
            },
        };
        Ok((source_node_name, destination_node_name, edge_type, edge_weight))
    }
}

/// The pure configuration of a delimited-text writer.
pub struct CsvFileWriter {
    /// Where the file will live.
    pub path: String,
    /// The cell separator.
    pub separator: String,
    /// Whether a header row is written.
    pub header: bool,
    /// Whether progress should be reported.
    pub verbose: bool,
}

impl CsvFileWriter {
    /// Returns a writer configuration with the default layout.
    pub fn new(path: String) -> (r: CsvFileWriter)
        ensures
            r.path@ == path@,
            r.header == true,
    {
        CsvFileWriter {
            path,
            separator: String::from_str("\t"),
            header: true,
            verbose: false,
        }
    }
}

/// The writer configuration of an edge list file.
pub struct EdgeFileWriter {
    /// The underlying delimited-text configuration.
    pub parameters: CsvFileWriter,
    /// The header name of the source column.
    pub sources_column: String,
    /// The cell index of the source column.
    pub sources_column_number: usize,
    /// The header name of the destination column.
    pub destinations_column: String,
    /// The cell index of the destination column.
    pub destinations_column_number: usize,
    /// The header name of the edge type column.
    pub edge_types_column: String,
    /// The cell index of the edge type column.
    pub edge_types_column_number: usize,
    /// The header name of the weight column.
    pub weights_column: String,
    /// The cell index of the weight column.
    pub weights_column_number: usize,
}

impl EdgeFileWriter {
    /// Returns an edge list writer with the default layout.
    pub fn new(parameters: CsvFileWriter) -> (r: EdgeFileWriter)
        ensures
            r.parameters == parameters,
            r.sources_column@ == "subject"@,
            r.sources_column_number == 0,
            r.destinations_column@ == "object"@,
            r.destinations_column_number == 1,
            r.edge_types_column@ == "label"@,
            r.edge_types_column_number == 2,
            r.weights_column@ == "weight"@,
            r.weights_column_number == 3,
    {
        EdgeFileWriter {
            parameters,
            sources_column: String::from_str("subject"),
            sources_column_number: 0,
            destinations_column: String::from_str("object"),
            destinations_column_number: 1,
            edge_types_column: String::from_str("label"),
            edge_types_column_number: 2,
            weights_column: String::from_str("weight"),
            weights_column_number: 3,
        }
    }

    /// Sets the source column name, when one is given.
    pub fn set_sources_column(self, sources_column: Option<String>) -> (r: EdgeFileWriter)
        ensures
            sources_column is None ==> r == self,
            sources_column is Some ==> r.sources_column@ == sources_column.unwrap()@ && r == (EdgeFileWriter {
                sources_column: r.sources_column,
                ..self
            }),
    {
        let mut this = self;
        if let Some(column) = sources_column {
            this.sources_column = column;
        }
        this
    }

    /// Sets the source column index, when one is given.
    pub fn set_sources_column_number(self, sources_column_number: Option<usize>) -> (r:
        EdgeFileWriter)
        ensures
            sources_column_number is None ==> r == self,
            sources_column_number is Some ==> r == (EdgeFileWriter {
                sources_column_number: sources_column_number.unwrap(),
                ..self
            }),
    {
        let mut this = self;
        if let Some(column_number) = sources_column_number {
            this.sources_column_number = column_number;
        }
        this
    }

    /// Sets the destination column name, when one is given.
    pub fn set_destinations_column(self, destinations_column: Option<String>) -> (r:
        EdgeFileWriter)
        ensures
            destinations_column is None ==> r == self,
            destinations_column is Some ==> r.destinations_column@ == destinations_column.unwrap()@ && r == (EdgeFileWriter {
                destinations_column: r.destinations_column,
                ..self
            }),
    {
        let mut this = self;
        if let Some(column) = destinations_column {
            this.destinations_column = column;
        }
        this
    }

    /// Sets the destination column index, when one is given.
    pub fn set_destinations_column_number(self, destinations_column_number: Option<usize>) -> (
        r: EdgeFileWriter)
        ensures
            destinations_column_number is None ==> r == self,
            destinations_column_number is Some ==> r == (EdgeFileWriter {
                destinations_column_number: destinations_column_number.unwrap(),
                ..self
            }),
    {
        let mut this = self;
        if let Some(column_number) = destinations_column_number {
            this.destinations_column_number = column_number;
        }
        this
    }

    /// Sets the edge type column name, when one is given.
    pub fn set_edge_types_column(self, edge_type_column: Option<String>) -> (r: EdgeFileWriter)
        ensures
            edge_type_column is None ==> r == self,
            edge_type_column is Some ==> r.edge_types_column@ == edge_type_column.unwrap()@ && r == (EdgeFileWriter {
                edge_types_column: r.edge_types_column,
                ..self
            }),
    {
        let mut this = self;
        if let Some(column) = edge_type_column {
            this.edge_types_column = column;
        }
        this
    }

    /// Sets the edge type column index, when one is given.
    pub fn set_edge_types_column_number(self, edge_type_column_number: Option<usize>) -> (r:
        EdgeFileWriter)
        ensures
            edge_type_column_number is None ==> r == self,
            edge_type_column_number is Some ==> r == (EdgeFileWriter {
                edge_types_column_number: edge_type_column_number.unwrap(),
                ..self
            }),
    {
        let mut this = self;
        if let Some(column_number) = edge_type_column_number {
            this.edge_types_column_number = column_number;
        }
        this
    }

    /// Sets the weight column name, when one is given.
    pub fn set_weights_column(self, weights_column: Option<String>) -> (r: EdgeFileWriter)
        ensures
            weights_column is None ==> r == self,
            weights_column is Some ==> r.weights_column@ == weights_column.unwrap()@ && r == (EdgeFileWriter {
                weights_column: r.weights_column,
                ..self
            }),
    {
        let mut this = self;
        if let Some(column) = weights_column {
            this.weights_column = column;
        }
        this
    }

    /// Sets the weight column index, when one is given.
    pub fn set_weights_column_number(self, weights_column_number: Option<usize>) -> (r:
        EdgeFileWriter)
        ensures
            weights_column_number is None ==> r == self,
            weights_column_number is Some ==> r == (EdgeFileWriter {
                weights_column_number: weights_column_number.unwrap(),
                ..self
            }),
    {
        let mut this = self;
        if let Some(column_number) = weights_column_number {
            this.weights_column_number = column_number;
        }
        this
    }
}

/// The reader configuration of a type list file.
pub struct TypeFileReader {
    /// The underlying delimited-text configuration.
    pub reader: CsvFileReader,
    /// The cell index of the type name.
    pub type_column_number: usize,
    /// Whether type names are read as decimal identifiers.
    pub numeric_type_ids: bool,
}

impl TypeFileReader {
    /// Returns a type list reader with the default layout: the type name in
    /// the first column.
    pub fn new(path: String) -> (r: Result<TypeFileReader, String>)
        ensures
            r.is_ok(),
            r.unwrap().type_column_number == 0,
            !r.unwrap().numeric_type_ids,
    {
        Ok(
            TypeFileReader {
                reader: CsvFileReader::new(path),
                type_column_number: 0,
                numeric_type_ids: false,
            },
        )
    }

    /// Sets the type column by name, when one is given.
    pub fn set_type_column(self, type_column: Option<String>) -> (r: Result<
        TypeFileReader,
        String,
    >)
        ensures
            type_column is None ==> r == Result::<TypeFileReader, String>::Ok(self),
            r.is_ok() <==> (type_column is None || (type_column.unwrap()@.len() > 0 && exists|
                i: int,
            |
                0 <= i < self.reader.column_names@.len() && (
                #[trigger] self.reader.column_names@[i])@ == type_column.unwrap()@)),
            r.is_ok() && type_column is Some ==> r.unwrap() == (TypeFileReader {
                type_column_number: r.unwrap().type_column_number,
                ..self
            }) && r.unwrap().type_column_number < self.reader.column_names@.len()
                && self.reader.column_names@[r.unwrap().type_column_number as int]@
                == type_column.unwrap()@,
    {
        let mut this = self;
        if let Some(column) = type_column {
            if column.as_str().unicode_len() == 0 {
                return Err(String::from_str("The given column name is empty."));
            }
            let n = this.reader.get_column_number(&column)?;
            this.type_column_number = n;
        }
        Ok(this)
    }

    /// Sets the type column by index, when one is given.
    pub fn set_type_column_number(self, type_column_number: Option<usize>) -> (r: Result<
        TypeFileReader,
        String,
    >)
        ensures
            type_column_number is None ==> r == Result::<TypeFileReader, String>::Ok(self),
            r.is_ok() <==> (type_column_number is None || self.reader.elements_per_line is None
                || type_column_number.unwrap() < self.reader.elements_per_line.unwrap()),
            r.is_ok() && type_column_number is Some ==> r.unwrap() == (TypeFileReader {
                type_column_number: type_column_number.unwrap(),
                ..self
            }),
    {
        let mut this = self;
        if let Some(column) = type_column_number {
            if let Some(expected) = this.reader.elements_per_line {
                if column >= expected {
                    return Err(String::from_str(
                        "The type column number exceeds the width of the first parsable line.",
                    ));
                }
            }
            this.type_column_number = column;
        }
        Ok(this)
    }

    /// Sets whether the caller vouches for the file, when a choice is
    /// given.
    pub fn set_csv_is_correct(self, csv_is_correct: Option<bool>) -> (r: TypeFileReader)
        ensures
            csv_is_correct is None ==> r == self,
            csv_is_correct is Some ==> r == (TypeFileReader {
                reader: (CsvFileReader {
                    csv_is_correct: csv_is_correct.unwrap(),
                    ..self.reader
                }),
                ..self
            }),
    {
        let mut this = self;
        if let Some(cic) = csv_is_correct {
            this.reader.csv_is_correct = cic;
        }
        this
    }

    /// Sets the comment symbol, when one is given.
    pub fn set_comment_symbol(self, comment_symbol: Option<String>) -> (r: Result<
        TypeFileReader,
        String,
    >)
        ensures
            comment_symbol is None ==> r == Result::<TypeFileReader, String>::Ok(self),
            r.is_ok() <==> (comment_symbol is None || comment_symbol.unwrap()@.len() > 0),
            r.is_ok() && comment_symbol is Some ==> r.unwrap().reader.comment_symbol is Some
                && r.unwrap().reader.comment_symbol.unwrap()@ == comment_symbol.unwrap()@
                && r.unwrap() == (TypeFileReader {
                reader: (CsvFileReader {
                    comment_symbol: r.unwrap().reader.comment_symbol,
                    ..self.reader
                }),
                ..self
            }),
    {
        let mut this = self;
        if let Some(cs) = comment_symbol {
            if cs.as_str().unicode_len() == 0 {
                return Err(String::from_str("The given comment symbol is empty."));
            }
            this.reader.comment_symbol = Some(cs);
        }
        Ok(this)
    }

    /// Sets whether progress is reported, when a choice is given.
    pub fn set_verbose(self, verbose: Option<bool>) -> (r: TypeFileReader)
        ensures
            verbose is None ==> r == self,
            verbose is Some ==> r == (TypeFileReader {
                reader: (CsvFileReader { verbose: verbose.unwrap(), ..self.reader }),
                ..self
            }),
    {
        let mut this = self;
        if let Some(v) = verbose {
            this.reader.verbose = v;
        }
        this
    }

    /// Sets whether type names are decimal identifiers, when a choice is
    /// given.
    pub fn set_numeric_type_ids(self, numeric_type_ids: Option<bool>) -> (r: TypeFileReader)
        ensures
            numeric_type_ids is None ==> r == self,
            numeric_type_ids is Some ==> r == (TypeFileReader {
                numeric_type_ids: numeric_type_ids.unwrap(),
                ..self
            }),
    {
        let mut this = self;
        if let Some(neti) = numeric_type_ids {
            this.numeric_type_ids = neti;
        }
        this
    }

    /// Sets whether duplicate rows are skipped, when a choice is given.
    pub fn set_ignore_duplicates(self, ignore_duplicates: Option<bool>) -> (r: TypeFileReader)
        ensures
            ignore_duplicates is None ==> r == self,
            ignore_duplicates is Some ==> r == (TypeFileReader {
                reader: (CsvFileReader {
                    ignore_duplicates: ignore_duplicates.unwrap(),
                    ..self.reader
                }),
                ..self
            }),
    {
        let mut this = self;
        if let Some(v) = ignore_duplicates {
            this.reader.ignore_duplicates = v;
        }
        this
    }

    /// Sets the cell separator, when a non-empty one is given.
    pub fn set_separator(self, separator: Option<String>) -> (r: Result<TypeFileReader, String>)
        ensures
            separator is None ==> r == Result::<TypeFileReader, String>::Ok(self),
            r.is_ok() <==> (separator is None || separator.unwrap()@.len() > 0),
            r.is_ok() && separator is Some ==> r.unwrap().reader.separator@ == separator.unwrap()@
                && r.unwrap() == (TypeFileReader {
                reader: (CsvFileReader { separator: r.unwrap().reader.separator, ..self.reader }),
                ..self
            }),
    {
        let mut this = self;
        if let Some(sep) = separator {
            if sep.as_str().unicode_len() == 0 {
                return Err(String::from_str("The separator cannot be empty."));
            }
            this.reader.separator = sep;
        }
        Ok(this)
    }

    /// Sets whether a header row is expected, when a choice is given.
    pub fn set_header(self, header: Option<bool>) -> (r: TypeFileReader)
        ensures
            header is None ==> r == self,
            header is Some ==> r == (TypeFileReader {
                reader: (CsvFileReader { header: header.unwrap(), ..self.reader }),
                ..self
            }),
    {
        let mut this = self;
        if let Some(v) = header {
            this.reader.header = v;
        }
        this
    }

    /// Sets how many rows to skip, when a count is given.
    pub fn set_rows_to_skip(self, rows_to_skip: Option<usize>) -> (r: TypeFileReader)
        ensures
            rows_to_skip is None ==> r == self,
            rows_to_skip is Some ==> r == (TypeFileReader {
                reader: (CsvFileReader { rows_to_skip: rows_to_skip.unwrap(), ..self.reader }),
                ..self
            }),
    {
        let mut this = self;
        if let Some(v) = rows_to_skip {
            this.reader.rows_to_skip = v;
        }
        this
    }

    /// Sets the upper bound on the number of rows, when one is given.
    pub fn set_max_rows_number(self, max_rows_number: Option<u64>) -> (r: TypeFileReader)
        ensures
            r == (TypeFileReader {
                reader: (CsvFileReader { max_rows_number, ..self.reader }),
                ..self
            }),
    {
        let mut this = self;
        this.reader.max_rows_number = max_rows_number;
        this
    }

    /// Extracts the type name from the already-split cells of a line.
    pub fn parse_type_line(&self, vals: Vec<String>) -> (r: Result<String, String>)
        ensures
            r.is_ok() <==> self.type_column_number < vals@.len(),
            r.is_ok() ==> r.unwrap()@ == vals@[self.type_column_number as int]@,
    {
        if self.type_column_number >= vals.len() {
            return Err(String::from_str("The type column is missing from the row."));
        }
        Ok(vals[self.type_column_number].clone())
    }
}

} // verus!
