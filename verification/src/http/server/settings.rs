//! Limits and buffer sizes of the server.

use vstd::prelude::*;

verus! {

/// How connections are spread over threads.
#[derive(Clone, Copy, Debug, PartialEq, Eq, Structural)]
pub enum HttpThreads {
    /// A fixed pool: N workers are started, and each serves the connections
    /// it accepts one after the other. No thread is started for a request.
    CONSTANT(usize),
    /// N acceptors are started, and each starts a new short-lived thread for
    /// every connection it accepts.
    SPAWN(usize),
}

impl HttpThreads {
    /// The number of threads started with the server.
    pub open spec fn count(self) -> usize {
        match self {
            HttpThreads::CONSTANT(n) => n,
            HttpThreads::SPAWN(n) => n,
        }
    }
}

/// HTTP server settings. Timeouts are in whole seconds.
#[derive(Clone, Copy, Debug)]
pub struct HttpSettings {
    pub max_header_size: usize,
    pub max_body_size: usize,
    pub header_buffer: usize,
    pub body_buffer: usize,
    pub header_read_attempts: usize,
    pub body_read_attempts: usize,
    pub read_timeout: Option<u64>,
    pub write_timeout: Option<u64>,
    pub threads: HttpThreads,
}

impl HttpSettings {
    /// All sizes are positive.
    pub open spec fn valid(&self) -> bool {
        &&& self.max_header_size > 0
        &&& self.max_body_size > 0
        &&& self.header_buffer > 0
        &&& self.body_buffer > 0
    }

    /// The default settings for a machine with `processors` processors:
    /// buffers and header limit of 8192 bytes, a body limit of 10 MiB, three
    /// tolerated stalls, timeouts of ten seconds, and a fixed pool with one
    /// worker for each processor, at least one.
    pub open spec fn defaults(processors: usize) -> HttpSettings {
        HttpSettings {
            max_header_size: 8192,
            max_body_size: 10_485_760,
            header_buffer: 8192,
            body_buffer: 8192,
            header_read_attempts: 3,
            body_read_attempts: 3,
            read_timeout: Some(10u64),
            write_timeout: Some(10u64),
            threads: HttpThreads::CONSTANT(
                if processors == 0 {
                    1
                } else {
                    processors
                },
            ),
        }
    }

    /// Whether all sizes are positive.
    pub fn is_valid(&self) -> (r: bool)
        ensures
            r == self.valid(),
    {
        self.max_header_size > 0 && self.max_body_size > 0 && self.header_buffer > 0
            && self.body_buffer > 0
    }

    /// The default settings for a machine with `processors` processors.
    pub fn new(processors: usize) -> (r: Self)
        ensures
            r == Self::defaults(processors),
            r.valid(),
    {
        Self {
            max_header_size: 8192,
            max_body_size: 10_485_760,
            header_buffer: 8192,
            body_buffer: 8192,
            header_read_attempts: 3,
            body_read_attempts: 3,
            read_timeout: Some(10),
            write_timeout: Some(10),
            threads: HttpThreads::CONSTANT(
                if processors == 0 {
                    1
                } else {
                    processors
                },
            ),
        }
    }

    pub fn max_header_size(self, max_header_size: usize) -> (r: Self)
        ensures
            r == (Self { max_header_size, ..self }),
    {
        let mut s = self;
        s.max_header_size = max_header_size;
        s
    }

    pub fn max_body_size(self, max_body_size: usize) -> (r: Self)
        ensures
            r == (Self { max_body_size, ..self }),
    {
        let mut s = self;
        s.max_body_size = max_body_size;
        s
    }

    pub fn header_buffer(self, header_buffer: usize) -> (r: Self)
        ensures
            r == (Self { header_buffer, ..self }),
    {
        let mut s = self;
        s.header_buffer = header_buffer;
        s
    }

    pub fn body_buffer(self, body_buffer: usize) -> (r: Self)
        ensures
            r == (Self { body_buffer, ..self }),
    {
        let mut s = self;
        s.body_buffer = body_buffer;
        s
    }

    pub fn header_read_attempts(self, header_read_attempts: usize) -> (r: Self)
        ensures
            r == (Self { header_read_attempts, ..self }),
    {
        let mut s = self;
        s.header_read_attempts = header_read_attempts;
        s
    }

    pub fn body_read_attempts(self, body_read_attempts: usize) -> (r: Self)
        ensures
            r == (Self { body_read_attempts, ..self }),
    {
        let mut s = self;
        s.body_read_attempts = body_read_attempts;
        s
    }

    pub fn read_timeout(self, read_timeout: Option<u64>) -> (r: Self)
        ensures
            r == (Self { read_timeout, ..self }),
    {
        let mut s = self;
        s.read_timeout = read_timeout;
        s
    }

    pub fn write_timeout(self, write_timeout: Option<u64>) -> (r: Self)
        ensures
            r == (Self { write_timeout, ..self }),
    {
        let mut s = self;
        s.write_timeout = write_timeout;
        s
    }

    pub fn threads(self, threads: HttpThreads) -> (r: Self)
        ensures
            r == (Self { threads, ..self }),
    {
        let mut s = self;
        s.threads = threads;
        s
    }

    /// Sets the number of threads and keeps the mode.
    pub fn threads_num(self, threads_num: usize) -> (r: Self)
        ensures
            r == (Self {
                threads: match self.threads {
                    HttpThreads::SPAWN(_) => HttpThreads::SPAWN(threads_num),
                    HttpThreads::CONSTANT(_) => HttpThreads::CONSTANT(threads_num),
                },
                ..self
            }),
    {
        let mut s = self;
        s.threads = match s.threads {
            HttpThreads::SPAWN(_) => HttpThreads::SPAWN(threads_num),
            HttpThreads::CONSTANT(_) => HttpThreads::CONSTANT(threads_num),
        };
        s
    }
}

} // verus!
