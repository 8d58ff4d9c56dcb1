use vstd::prelude::*;

verus! {

/// One named section of a loaded firmware image, as the object-file reader
/// hands it over: a name, a load address, a declared byte size, and the raw
/// content bytes (empty for sections that carry none, such as `.bss`).
pub struct Section {
    pub name: String,
    pub addr: u64,
    pub size: u64,
    pub data: Vec<u8>,
}

/// The mathematical value of a section.
pub struct SectionView {
    pub name: Seq<char>,
    pub addr: u64,
    pub size: u64,
    pub data: Seq<u8>,
}

impl View for Section {
    type V = SectionView;

    open spec fn view(&self) -> SectionView {
        SectionView { name: self.name@, addr: self.addr, size: self.size, data: self.data@ }
    }
}

/// A loaded firmware image: the sections the object-file reader produced,
/// in file order.
pub struct Image {
    pub sections: Vec<Section>,
}

impl View for Image {
    type V = Seq<SectionView>;

    open spec fn view(&self) -> Seq<SectionView> {
        self.sections@.map_values(|s: Section| s@)
    }
}

/// The first section carrying `name`, if any.
pub open spec fn find_sec(ss: Seq<SectionView>, name: Seq<char>) -> Option<SectionView>
    decreases ss.len(),
{
    if ss.len() == 0 {
        None
    } else if ss[0].name == name {
        Some(ss[0])
    } else {
        find_sec(ss.drop_first(), name)
    }
}

impl Image {
    /// A section's content never exceeds its declared size.
    pub open spec fn wf(&self) -> bool {
        forall|i: int| 0 <= i < self@.len() ==> (#[trigger] self@[i]).data.len() <= self@[i].size
    }

    /// Every section found in the image satisfies the image invariant.
    pub proof fn lemma_found_wf(&self, name: Seq<char>)
        requires
            self.wf(),
            find_sec(self@, name) is Some,
        ensures
            find_sec(self@, name)->Some_0.data.len() <= find_sec(self@, name)->Some_0.size,
    {
        Self::lemma_find_sec_wf(self@, name);
    }

    pub proof fn lemma_find_sec_wf(ss: Seq<SectionView>, name: Seq<char>)
        requires
            forall|i: int| 0 <= i < ss.len() ==> (#[trigger] ss[i]).data.len() <= ss[i].size,
            find_sec(ss, name) is Some,
        ensures
            find_sec(ss, name)->Some_0.data.len() <= find_sec(ss, name)->Some_0.size,
        decreases ss.len(),
    {
        if ss.len() > 0 && ss[0].name != name {
            Self::lemma_find_sec_wf(ss.drop_first(), name);
        }
    }

    pub fn find_section(&self, name: &String) -> (r: Option<&Section>)
        ensures
            match r {
                Some(s) => find_sec(self@, name@) == Some(s@),
                None => find_sec(self@, name@) is None,
            },
    {
        let n = self.sections.len();
        let mut i: usize = 0;
        proof {
            assert(self@.skip(0) =~= self@);
        }
        while i < n
            invariant
                n == self.sections.len(),
                i <= n,
                find_sec(self@, name@) == find_sec(self@.skip(i as int), name@),
            decreases n - i,
        {
            proof {
                assert(self@.skip(i as int)[0] == self@[i as int]);
                assert(self@.skip(i as int).drop_first() =~= self@.skip(i as int + 1));
            }
            if self.sections[i].name == *name {
                return Some(&self.sections[i]);
            }
            i = i + 1;
        }
        None
    }
}

} // verus!
