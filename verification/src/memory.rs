//! Guest linear memory modelled as a sequence of fixed-size pages. Initial
//! page contents are loaded here after instantiation and before the entry
//! point runs; the accessed-page extraction reads final contents back out.

use vstd::prelude::*;

verus! {

/// Size of one guest page in bytes.
pub const PAGE_SIZE: usize = 4096;

/// Content of an all-zero page, the state of any page never written.
pub open spec fn spec_zero_page() -> Seq<u8> {
    Seq::new(PAGE_SIZE as nat, |i: int| 0u8)
}

/// Guest linear memory: a growable array of pages, each exactly
/// `PAGE_SIZE` bytes. Viewed as a sequence of page contents.
pub struct GuestMemory {
    pages: Vec<Vec<u8>>,
}

impl View for GuestMemory {
    type V = Seq<Seq<u8>>;

    closed spec fn view(&self) -> Seq<Seq<u8>> {
        self.pages@.map_values(|p: Vec<u8>| p@)
    }
}

impl GuestMemory {
    /// Every page holds exactly `PAGE_SIZE` bytes and the page count fits
    /// the 32-bit page index space.
    pub open spec fn wf(&self) -> bool {
        &&& self@.len() <= u32::MAX
        &&& forall|i: int| 0 <= i < self@.len() ==> (#[trigger] self@[i]).len() == PAGE_SIZE
    }

    /// A fresh memory of `total_pages` zeroed pages.
    pub fn new(total_pages: u32) -> (m: GuestMemory)
        ensures
            m.wf(),
            m@.len() == total_pages,
            forall|i: int| 0 <= i < total_pages ==> #[trigger] m@[i] == spec_zero_page(),
    {
        let mut pages: Vec<Vec<u8>> = Vec::new();
        let mut i: u32 = 0;
        while i < total_pages
            invariant
                i <= total_pages,
                pages@.len() == i,
                forall|j: int|
                    0 <= j < i ==> (#[trigger] pages@[j])@ == spec_zero_page(),
            decreases total_pages - i,
        {
            let page: Vec<u8> = vec![0u8; PAGE_SIZE];
            proof {
                assert(page@ =~= spec_zero_page());
            }
            pages.push(page);
            i = i + 1;
        }
        let m = GuestMemory { pages };
        proof {
            assert(forall|j: int|
                0 <= j < m@.len() ==> m@[j] == (#[trigger] pages@[j])@);
        }
        m
    }

    /// Current size in pages.
    pub fn size(&self) -> (n: u32)
        requires
            self.wf(),
        ensures
            n == self@.len(),
    {
        self.pages.len() as u32
    }

    /// Grow the memory by `additional` zeroed pages. Growth preserves the
    /// content of every existing page at its logical offset: the old pages
    /// are a prefix of the new memory, untouched.
    pub fn grow(&mut self, additional: u32)
        requires
            old(self).wf(),
            old(self)@.len() + additional <= u32::MAX,
        ensures
            final(self).wf(),
            final(self)@.len() == old(self)@.len() + additional,
            forall|i: int| 0 <= i < old(self)@.len() ==> final(self)@[i] == old(self)@[i],
            forall|i: int|
                old(self)@.len() <= i < final(self)@.len() ==> #[trigger] final(self)@[i] == spec_zero_page(),
    {
        let ghost orig = self@;
        let mut i: u32 = 0;
        while i < additional
            invariant
                i <= additional,
                orig.len() + additional <= u32::MAX,
                self@.len() == orig.len() + i,
                forall|j: int| 0 <= j < orig.len() ==> self@[j] == orig[j],
                forall|j: int| orig.len() <= j < self@.len() ==> #[trigger] self@[j] == spec_zero_page(),
            decreases additional - i,
        {
            let page: Vec<u8> = vec![0u8; PAGE_SIZE];
            proof {
                assert(page@ =~= spec_zero_page());
            }
            let ghost prev = self@;
            self.pages.push(page);
            proof {
                assert(self@ =~= prev.push(spec_zero_page()));
            }
            i = i + 1;
        }
        proof {
            assert forall|j: int| 0 <= j < self@.len() implies (#[trigger] self@[j]).len()
                == PAGE_SIZE by {
                if j < orig.len() {
                    assert(self@[j] == orig[j]);
                } else {
                    assert(self@[j] == spec_zero_page());
                }
            }
        }
    }

    /// Overwrite one whole page, used to load initial page contents.
    pub fn set_page(&mut self, page: u32, content: &Vec<u8>)
        requires
            old(self).wf(),
            page < old(self)@.len(),
            content@.len() == PAGE_SIZE,
        ensures
            final(self).wf(),
            final(self)@ == old(self)@.update(page as int, content@),
    {
        let mut copy: Vec<u8> = Vec::new();
        let mut i: usize = 0;
        while i < content.len()
            invariant
                i <= content@.len(),
                copy@ == content@.subrange(0, i as int),
            decreases content@.len() - i,
        {
            copy.push(content[i]);
            proof {
                assert(copy@ =~= content@.subrange(0, i as int + 1));
            }
            i = i + 1;
        }
        proof {
            assert(copy@ =~= content@);
        }
        self.pages[page as usize] = copy;
        proof {
            assert(self@ =~= old(self)@.update(page as int, content@));
        }
    }

    /// Write one byte within a page.
    pub fn write_byte(&mut self, page: u32, offset: usize, value: u8)
        requires
            old(self).wf(),
            page < old(self)@.len(),
            offset < PAGE_SIZE,
        ensures
            final(self).wf(),
            final(self)@ == old(self)@.update(
                page as int,
                old(self)@[page as int].update(offset as int, value),
            ),
    {
        proof {
            assert(self.pages@[page as int]@ == self@[page as int]);
        }
        self.pages[page as usize][offset] = value;
        proof {
            assert(self@ =~= old(self)@.update(
                page as int,
                old(self)@[page as int].update(offset as int, value),
            ));
        }
    }

    /// Read one byte within a page.
    pub fn read_byte(&self, page: u32, offset: usize) -> (b: u8)
        requires
            self.wf(),
            page < self@.len(),
            offset < PAGE_SIZE,
        ensures
            b == self@[page as int][offset as int],
    {
        proof {
            assert(self.pages@[page as int]@ == self@[page as int]);
        }
        self.pages[page as usize][offset]
    }

    /// A copy of one page's content.
    pub fn page_content(&self, page: u32) -> (c: Vec<u8>)
        requires
            self.wf(),
            page < self@.len(),
        ensures
            c@ == self@[page as int],
    {
        let p: &Vec<u8> = &self.pages[page as usize];
        let mut copy: Vec<u8> = Vec::new();
        let mut i: usize = 0;
        while i < p.len()
            invariant
                i <= p@.len(),
                copy@ == p@.subrange(0, i as int),
            decreases p@.len() - i,
        {
            copy.push(p[i]);
            proof {
                assert(copy@ =~= p@.subrange(0, i as int + 1));
            }
            i = i + 1;
        }
        proof {
            assert(copy@ =~= p@);
        }
        copy
    }
}

} // verus!
