use tspl_filter::job::{Event, Job, Phase, Progress, Request};
use tspl_filter::ppd::{Options, PpdFile, PpdOption};
use tspl_filter::tspl::{JobError, PageHeader, BEEPRT};

struct Page {
    header: PageHeader,
    rows: Vec<Vec<u8>>,
}

struct Outcome {
    output: Vec<u8>,
    result: Result<(), JobError>,
    progress: Vec<Progress>,
}

fn printer() -> PpdFile {
    let mut ppd = PpdFile::new(
        BEEPRT,
        vec![PpdOption::new(b"Darkness".to_vec(), b"Default".to_vec())],
    );
    ppd.resolve(&Options::new());
    ppd
}

fn page(width: u32, rows: Vec<Vec<u8>>) -> Page {
    Page {
        header: PageHeader {
            hw_resolution_x: 203,
            hw_resolution_y: 203,
            width,
            height: rows.len() as u32,
            bytes_per_line: width,
        },
        rows,
    }
}

/// Feeds the pages to a job; termination is requested once `cancel_after`
/// rows have been read in all.
fn run(pages: Vec<Page>, cancel_after: Option<usize>) -> Outcome {
    let ppd = printer();
    let mut job = match Job::new(&ppd) {
        Ok(j) => j,
        Err(_) => panic!("supported model"),
    };
    let mut output = Vec::new();
    let mut progress = Vec::new();
    let mut next_page = 0;
    let mut next_row = 0;
    let mut rows_read = 0;
    let mut request = Request::ReadHeader;
    loop {
        let event = match request {
            Request::ReadHeader => {
                if next_page < pages.len() {
                    next_page += 1;
                    next_row = 0;
                    Event::Header(pages[next_page - 1].header)
                } else {
                    Event::EndOfStream
                }
            }
            Request::ReadRow => {
                let rows = &pages[next_page - 1].rows;
                if next_row < rows.len() {
                    next_row += 1;
                    rows_read += 1;
                    Event::Row(rows[next_row - 1].clone())
                } else {
                    Event::RowsExhausted
                }
            }
            Request::Finish(result) => {
                return Outcome { output, result, progress };
            }
        };
        let cancelled = cancel_after.map_or(false, |n| rows_read >= n);
        let step = job.handle(&ppd, event, cancelled);
        output.extend_from_slice(&step.output);
        if let Some(p) = step.progress {
            progress.push(p);
        }
        request = step.request;
    }
}

fn setup_text(width: u32, height: u32) -> Vec<u8> {
    let ppd = printer();
    let h = PageHeader {
        hw_resolution_x: 203,
        hw_resolution_y: 203,
        width,
        height,
        bytes_per_line: width,
    };
    match tspl_filter::tspl::start_page(&ppd, &h) {
        Ok(t) => t,
        Err(_) => panic!("setup"),
    }
}

fn count(haystack: &[u8], needle: &[u8]) -> usize {
    haystack.windows(needle.len()).filter(|w| *w == needle).count()
}

#[test]
fn two_dark_pages_print_twice() {
    let pages = vec![page(8, vec![vec![0; 8], vec![0; 8]]), page(8, vec![vec![0; 8], vec![0; 8]])];
    let out = run(pages, None);
    assert!(out.result.is_ok());
    assert_eq!(count(&out.output, b"PRINT"), 2);
    let mut expected = Vec::new();
    for _ in 0..2 {
        expected.extend_from_slice(&setup_text(8, 2));
        expected.extend_from_slice(&[0xFF, 0xFF]);
        expected.extend_from_slice(b"\r\nPRINT 1,1\r\n");
    }
    assert_eq!(out.output, expected);
}

#[test]
fn cancel_in_second_page_keeps_first() {
    let pages = vec![page(8, vec![vec![0; 8], vec![0; 8]]), page(8, vec![vec![0; 8], vec![0; 8]])];
    let out = run(pages, Some(3));
    let mut expected = Vec::new();
    expected.extend_from_slice(&setup_text(8, 2));
    expected.extend_from_slice(&[0xFF, 0xFF]);
    expected.extend_from_slice(b"\r\nPRINT 1,1\r\n");
    expected.extend_from_slice(&setup_text(8, 2));
    expected.extend_from_slice(&[0xFF]);
    assert_eq!(out.output, expected);
    assert_eq!(count(&out.output, b"PRINT"), 1);
    // One page was completed, so the job succeeds.
    assert!(out.result.is_ok());
}

#[test]
fn cancel_in_first_page_fails_the_job() {
    let pages = vec![page(8, vec![vec![0; 8], vec![0; 8]])];
    let out = run(pages, Some(1));
    assert_eq!(count(&out.output, b"PRINT"), 0);
    assert!(matches!(out.result, Err(JobError::ZeroPages)));
}

#[test]
fn empty_input_is_zero_pages() {
    let out = run(Vec::new(), None);
    assert!(out.output.is_empty());
    assert!(matches!(out.result, Err(JobError::ZeroPages)));
}

#[test]
fn short_page_still_prints() {
    let mut p = page(8, vec![vec![255; 8]]);
    p.header.height = 3;
    let out = run(vec![p], None);
    let mut expected = setup_text(8, 3);
    expected.push(0x00);
    expected.extend_from_slice(b"\r\nPRINT 1,1\r\n");
    assert_eq!(out.output, expected);
    assert!(out.result.is_ok());
}

#[test]
fn progress_every_sixteen_rows() {
    let rows = vec![vec![0u8; 8]; 40];
    let out = run(vec![page(8, rows)], None);
    assert_eq!(
        out.progress,
        vec![
            Progress { page: 1, percent: 0 },
            Progress { page: 1, percent: 40 },
            Progress { page: 1, percent: 80 },
        ]
    );
}

#[test]
fn unsupported_model_cannot_start() {
    let ppd = PpdFile::new(1, Vec::new());
    assert!(matches!(Job::new(&ppd), Err(JobError::UnsupportedModel(1))));
}

#[test]
fn stopped_job_stays_stopped() {
    let ppd = printer();
    let mut job = match Job::new(&ppd) {
        Ok(j) => j,
        Err(_) => panic!("supported model"),
    };
    let step = job.handle(&ppd, Event::EndOfStream, false);
    assert!(matches!(step.request, Request::Finish(Err(JobError::ZeroPages))));
    assert!(matches!(job.phase, Phase::Stopped));
    let step = job.handle(&ppd, Event::RowsExhausted, false);
    assert!(matches!(step.request, Request::Finish(Err(JobError::ZeroPages))));
    assert!(step.output.is_empty());
}

#[test]
fn header_when_cancelled_stops() {
    let out = run(vec![page(8, vec![vec![0; 8]])], Some(0));
    assert!(out.output.is_empty());
    assert!(matches!(out.result, Err(JobError::ZeroPages)));
}
